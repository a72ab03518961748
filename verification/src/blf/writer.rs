//! Writing the objects of a file one after another.
//!
//! [`BlfWriter`] hands out the bytes that are to be written next by putting them behind
//! those that the caller gives it.

use crate::blf::bytes::put_bytes;
use crate::blf::container::{
    add64, containers, encode_container, lemma_low64_sum, low64, object_stream, padded_bytes,
    put_zeros, uncompressed_size, Layout,
};
use crate::blf::error::{Error, Failure, Result};
use crate::blf::file::{header_limit, saturated32, update_header, updated_header};
use crate::blf::file_header::Header;
use crate::blf::object::BlfObject;
use crate::blf::object_type::ObjectType;
use vstd::prelude::*;

verus! {

/// Number of bytes from which on a container is closed, unless another is set.
pub const DEFAULT_CONTAINER_SIZE: usize = 0x40_0000;

impl Layout {
    /// The layout ready for an object of a stream: the first restore point starts a
    /// container of its own.
    pub open spec fn stream_ready(
        self,
        is_restore: bool,
        compress: bool,
        header_size: int,
    ) -> std::result::Result<Layout, Failure> {
        if is_restore && self.restore is None {
            match self.closed_if_used() {
                Ok(l) => Ok(
                    Layout {
                        restore: Some(header_size + containers(l.groups, compress).len()),
                        ..l
                    },
                ),
                Err(f) => Err(f),
            }
        } else {
            Ok(self)
        }
    }

    /// The layout with room for a number of bytes in containers of a size.
    pub open spec fn stream_room(self, len: int, container_size: int) -> std::result::Result<
        Layout,
        Failure,
    > {
        let used = object_stream(self.open).len();
        if used > 0 && used + len >= container_size {
            self.closed()
        } else {
            Ok(self)
        }
    }

    /// The layout of a stream with one more object.
    #[verifier::opaque]
    pub open spec fn streamed(
        self,
        o: BlfObject,
        compress: bool,
        header_size: int,
        container_size: int,
    ) -> std::result::Result<Layout, Failure> {
        match self.stream_ready(o.head().base.object_type == 115, compress, header_size) {
            Err(f) => Err(f),
            Ok(l) => match o.write_failure() {
                Some(f) => Err(f),
                None => match l.stream_room(padded_bytes(o).len() as int, container_size) {
                    Err(f) => Err(f),
                    Ok(m) => Ok(Layout { open: m.open.push(o), ..m }),
                },
            },
        }
    }
}

/// Incremental BLF writer.
pub struct BlfWriter {
    header: Header,
    buffer: Vec<u8>,
    container_size: usize,
    written: u64,
    uncompressed: u64,
    object_count: u64,
    restore_point_offset: Option<u64>,
    layout: Ghost<Layout>,
}

/// What is to be written last: the rest of the containers, and the header that takes the
/// place of the one at the start.
#[derive(Debug, Clone, PartialEq, Eq)]
pub struct Ending {
    pub containers: Vec<u8>,
    pub header: Vec<u8>,
}

impl BlfWriter {
    /// The header that the file was started with.
    pub closed spec fn head(self) -> Header {
        self.header
    }

    /// Whether containers are compressed.
    pub closed spec fn compress(self) -> bool {
        self.header.compression > 0
    }

    /// The number of bytes from which on a container is closed.
    pub closed spec fn limit(self) -> int {
        self.container_size as int
    }

    /// How the objects so far are packed.
    pub closed spec fn packed(self) -> Layout {
        self.layout@
    }

    /// The number of objects so far.
    pub closed spec fn count(self) -> u64 {
        self.object_count
    }

    /// Whether the counters and the buffer are those of the objects so far.
    pub closed spec fn valid(self) -> bool {
        let l = self.layout@;
        let size = self.header.spec_encoded_size();
        let compress = self.header.compression > 0;
        &&& size <= u32::MAX
        &&& size <= usize::MAX
        &&& self.buffer@ == object_stream(l.open)
        &&& self.written == low64(size + containers(l.groups, compress).len())
        &&& self.uncompressed == low64(size + uncompressed_size(l.groups))
        &&& (match (self.restore_point_offset, l.restore) {
            (Some(a), Some(b)) => a == low64(b),
            (None, None) => true,
            _ => false,
        })
    }

    /// Starts a file: gives the writer and puts the header behind the bytes of `sink`, with
    /// its own size and no objects.
    pub fn new(header: Header, sink: &mut Vec<u8>) -> (r: Result<Self>)
        requires
            header.spec_encoded_size() <= usize::MAX,
        ensures
            match r {
                Ok(w) => {
                    let size = header.spec_encoded_size();
                    let restore = match header.restore_point_offset {
                        Some(offset) => offset,
                        None => 0,
                    };
                    &&& size <= u32::MAX
                    &&& w.valid()
                    &&& w.head().same(updated_header(header, size as u64, size as u64, 0, restore))
                    &&& w.compress() == (header.compression > 0)
                    &&& w.limit() == 0x40_0000
                    &&& w.packed() == Layout::empty()
                    &&& w.count() == 0
                    &&& final(sink)@ == old(sink)@ + w.head().encoding()
                },
                Err(e) => {
                    &&& header.spec_encoded_size() > u32::MAX
                    &&& e@ == header_limit()
                    &&& final(sink)@ == old(sink)@
                },
            },
    {
        let size: usize = header.encoded_size();
        if size as u128 > u32::MAX as u128 {
            return Err(Error::Write("BLF header exceeds the u32 size limit".to_string()));
        }
        let restore: u64 = header.restore_point_offset.unwrap_or(0);
        let started = update_header(&header, size as u64, size as u64, 0, restore);
        started.write_to(sink);
        Ok(
            BlfWriter {
                header: started,
                buffer: Vec::new(),
                container_size: DEFAULT_CONTAINER_SIZE,
                written: size as u64,
                uncompressed: size as u64,
                object_count: 0,
                restore_point_offset: None,
                layout: Ghost(Layout::empty()),
            },
        )
    }

    /// Sets the maximum uncompressed bytes buffered per log container.
    pub fn set_container_size(&mut self, bytes: usize) -> (r: Result<()>)
        requires
            old(self).valid(),
        ensures
            final(self).valid(),
            final(self).head() == old(self).head(),
            final(self).compress() == old(self).compress(),
            final(self).packed() == old(self).packed(),
            final(self).count() == old(self).count(),
            match r {
                Ok(_) => bytes > 0 && final(self).limit() == bytes,
                Err(e) => {
                    &&& bytes == 0
                    &&& e@ == Failure::Write("container size must be greater than zero"@)
                    &&& final(self).limit() == old(self).limit()
                },
            },
    {
        if bytes == 0 {
            return Err(Error::Write("container size must be greater than zero".to_string()));
        }
        self.container_size = bytes;
        Ok(())
    }

    fn flush(&mut self, sink: &mut Vec<u8>) -> (r: Result<()>)
        requires
            old(self).valid(),
        ensures
            final(self).valid(),
            final(self).header == old(self).header,
            final(self).container_size == old(self).container_size,
            final(self).object_count == old(self).object_count,
            final(self).restore_point_offset == old(self).restore_point_offset,
            match r {
                Ok(_) => {
                    let l = old(self).packed().closed_if_used();
                    &&& l is Ok
                    &&& final(self).packed() == l->Ok_0
                    &&& containers(old(self).packed().groups, old(self).compress())
                        + final(sink)@.subrange(
                        old(sink)@.len() as int,
                        final(sink)@.len() as int,
                    ) == containers(final(self).packed().groups, old(self).compress())
                    &&& final(sink)@.len() >= old(sink)@.len()
                    &&& final(sink)@.subrange(0, old(sink)@.len() as int) == old(sink)@
                },
                Err(e) => {
                    &&& final(self).packed() == old(self).packed()
                    &&& final(sink)@ == old(sink)@
                    &&& old(self).packed().closed_if_used() == Err::<Layout, Failure>(e@)
                },
            },
    {
        let compress = self.header.compression > 0;
        let ghost l = self.layout@;
        if self.buffer.len() == 0 {
            proof {
                assert(sink@.subrange(0, sink@.len() as int) =~= sink@);
                assert(containers(l.groups, compress) + sink@.subrange(
                    sink@.len() as int,
                    sink@.len() as int,
                ) =~= containers(l.groups, compress));
            }
            return Ok(());
        }
        proof {
            reveal(Layout::closed);
        }
        let (container, size) = encode_container(&self.buffer, compress)?;
        put_bytes(sink, &container);
        self.written = add64(self.written, container.len() as u64);
        self.uncompressed = add64(self.uncompressed, size);
        self.buffer.clear();
        proof {
            let head = self.header.spec_encoded_size();
            let groups = l.groups.push(l.open);
            assert(groups.drop_last() =~= l.groups);
            lemma_low64_sum(head + containers(l.groups, compress).len(), container@.len() as int);
            lemma_low64_sum(
                head + uncompressed_size(l.groups),
                32 + object_stream(l.open).len() as int,
            );
            self.layout@ = l.closed()->Ok_0;
            assert(self.buffer@ =~= Seq::<u8>::empty());
            let n = old(sink)@.len() as int;
            assert(sink@.subrange(0, n) =~= old(sink)@);
            assert(sink@.subrange(n, sink@.len() as int) =~= container@);
        }
        Ok(())
    }

    /// Serializes one object, closing a full log container when needed: puts the bytes that
    /// are to be written behind those of `sink`. An object that cannot be written leaves
    /// what was packed before it, made ready for the object where that was possible.
    pub fn write_object(&mut self, object: &BlfObject, sink: &mut Vec<u8>) -> (r: Result<()>)
        requires
            old(self).valid(),
        ensures
            final(self).valid(),
            final(self).head() == old(self).head(),
            final(self).compress() == old(self).compress(),
            final(self).limit() == old(self).limit(),
            final(sink)@.len() >= old(sink)@.len(),
            final(sink)@.subrange(0, old(sink)@.len() as int) == old(sink)@,
            containers(old(self).packed().groups, old(self).compress()) + final(sink)@.subrange(
                old(sink)@.len() as int,
                final(sink)@.len() as int,
            ) == containers(final(self).packed().groups, old(self).compress()),
            ({
                let next = old(self).packed().streamed(
                    *object,
                    old(self).compress(),
                    old(self).head().spec_encoded_size(),
                    old(self).limit(),
                );
                match r {
                    Ok(_) => {
                        &&& next is Ok
                        &&& final(self).packed() == next->Ok_0
                        &&& final(self).count() == low64(old(self).count() + 1)
                    },
                    Err(e) => {
                        &&& final(self).count() == old(self).count()
                        &&& final(self).packed() == match old(self).packed().stream_ready(
                            object.head().base.object_type == 115,
                            old(self).compress(),
                            old(self).head().spec_encoded_size(),
                        ) {
                            Ok(ready) => ready,
                            Err(_) => old(self).packed(),
                        }
                        &&& next == Err::<Layout, Failure>(e@)
                    },
                }
            }),
    {
        let ghost compress = self.compress();
        let ghost first = self.layout@;
        let ghost n = sink@.len() as int;
        let is_restore = object.object_type() == ObjectType::RestorepointContainer.to_raw();
        proof {
            reveal(Layout::streamed);
            assert(ObjectType::RestorepointContainer.raw() == 115);
            assert(sink@.subrange(0, n) =~= sink@);
            assert(containers(first.groups, compress) + sink@.subrange(n, n) =~= containers(
                first.groups,
                compress,
            ));
        }
        if is_restore && self.restore_point_offset.is_none() {
            self.flush(sink)?;
            proof {
                crate::blf::file_laws::lemma_closed_flat(first);
            }
            self.restore_point_offset = Some(self.written);
            proof {
                let l = self.layout@;
                self.layout@ = Layout {
                    restore: Some(
                        self.header.spec_encoded_size() + containers(l.groups, compress).len(),
                    ),
                    ..l
                };
            }
        }
        let ghost ready = self.layout@;
        let ghost between = sink@;
        let mut bytes: Vec<u8> = Vec::new();
        object.write_to(&mut bytes)?;
        put_zeros(&mut bytes, object.padding());
        proof {
            reveal(padded_bytes);
            assert(bytes@ =~= padded_bytes(*object));
        }
        if self.buffer.len() > 0 && self.buffer.len() as u128 + bytes.len() as u128
            >= self.container_size as u128 {
            self.flush(sink)?;
            proof {
                let tail = sink@.subrange(between.len() as int, sink@.len() as int);
                assert(sink@.subrange(0, n) =~= between.subrange(0, n));
                assert(sink@.subrange(n, sink@.len() as int) =~= between.subrange(
                    n,
                    between.len() as int,
                ) + tail) by {
                    assert(sink@ =~= between + tail) by {
                        assert(sink@.subrange(0, between.len() as int) == between);
                    }
                }
                assert(containers(first.groups, compress) + (between.subrange(
                    n,
                    between.len() as int,
                ) + tail) =~= (containers(first.groups, compress) + between.subrange(
                    n,
                    between.len() as int,
                )) + tail);
            }
        }
        let ghost room = self.layout@;
        put_bytes(&mut self.buffer, &bytes);
        self.object_count = add64(self.object_count, 1);
        proof {
            let open = room.open.push(*object);
            assert(open.drop_last() =~= room.open);
            self.layout@ = Layout { open, ..room };
        }
        Ok(())
    }

    /// Closes the last container and gives it with the final header, which takes the place
    /// of the one that was written first.
    pub fn finish(self) -> (r: Result<Ending>)
        requires
            self.valid(),
        ensures
            ({
                let l = self.packed().closed_if_used();
                match r {
                    Ok(end) => {
                        let m = l->Ok_0;
                        let size = self.head().spec_encoded_size();
                        &&& l is Ok
                        &&& containers(self.packed().groups, self.compress()) + end.containers@
                            == containers(m.groups, self.compress())
                        &&& end.header@ == updated_header(
                            self.head(),
                            low64(size + containers(m.groups, self.compress()).len()),
                            low64(size + uncompressed_size(m.groups)),
                            saturated32(self.count() as int),
                            (match m.restore {
                                Some(offset) => low64(offset),
                                None => 0,
                            }),
                        ).encoding()
                    },
                    Err(e) => l == Err::<Layout, Failure>(e@),
                }
            }),
    {
        let mut this = self;
        let mut rest: Vec<u8> = Vec::new();
        this.flush(&mut rest)?;
        proof {
            assert(rest@.subrange(0, rest@.len() as int) =~= rest@);
            reveal(Layout::closed);
        }
        let count: u32 = if this.object_count > u32::MAX as u64 {
            u32::MAX
        } else {
            this.object_count as u32
        };
        let restore: u64 = this.restore_point_offset.unwrap_or(0);
        let header = update_header(
            &this.header,
            this.written,
            this.uncompressed,
            count,
            restore,
        );
        let mut bytes: Vec<u8> = Vec::new();
        header.write_to(&mut bytes);
        proof {
            let m = this.layout@;
            assert(bytes@ =~= header.encoding());
            header.lemma_same_encoding(
                updated_header(
                    self.header,
                    low64(
                        self.header.spec_encoded_size() + containers(
                            m.groups,
                            self.compress(),
                        ).len(),
                    ),
                    low64(self.header.spec_encoded_size() + uncompressed_size(m.groups)),
                    saturated32(self.object_count as int),
                    restore,
                ),
            );
        }
        Ok(Ending { containers: rest, header: bytes })
    }
}

} // verus!
