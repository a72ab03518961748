//! CAN and LIN frames in a file.

use crate::blf::bytes::read_bytes;
use crate::blf::can::{clipped, dlc_of_length, padded, CanFdMessage, CanMessage};
use crate::blf::error::{Error, Failure, Result};
use crate::blf::file::{can_types, lin_types, passes, BlfFile};
use crate::blf::flags::{CanFd64Flags, CanFdFlags, CanFlags, ObjectFlags};
use crate::blf::frame_laws::{law_can_frames_found, law_lin_frames_found};
use crate::blf::lin::LinMessage2;
use crate::blf::object::BlfObject;
use crate::blf::object_type::ObjectType;
use crate::bus::{CanFrame, FrameType, LinChecksumType, LinFrame};
use crate::span::Span;
use crate::text::{dec, digit, digit_char, push_dec};
use vstd::prelude::*;

verus! {

/// A LIN frame that was read, with the time at which its object was recorded, in the unit
/// that the flags name.
#[derive(Debug, Clone, PartialEq, Eq)]
pub struct LinSample {
    pub frame: LinFrame,
    pub timestamp: u64,
    pub object_flags: ObjectFlags,
}

/// The time from which frames are counted: that of the first frame.
pub open spec fn time_base(current: Option<Span>, elapsed: Span) -> Span {
    match current {
        Some(base) => base,
        None => elapsed,
    }
}

/// Positions of the objects for which a condition holds, in their order.
pub open spec fn positions(objects: Seq<BlfObject>, wanted: spec_fn(BlfObject) -> bool) -> Seq<int>
    decreases objects.len(),
{
    if objects.len() == 0 {
        Seq::empty()
    } else {
        let before = positions(objects.drop_last(), wanted);
        if wanted(objects.last()) {
            before.push(objects.len() - 1)
        } else {
            before
        }
    }
}

/// Which objects are CAN data frames of a channel and identifier.
pub open spec fn can_wanted(channel: i32, id: u32) -> spec_fn(BlfObject) -> bool {
    |o: BlfObject| passes(Some(can_types()), o) && o.can_filter(channel, id)
}

/// Which objects are LIN data frames of a channel and identifier.
pub open spec fn lin_wanted(channel: i32, id: u8) -> spec_fn(BlfObject) -> bool {
    |o: BlfObject| passes(Some(lin_types()), o) && o.lin_filter(channel, id)
}

/// The kind of a CAN frame with or without CAN FD and bit-rate switching.
pub open spec fn kind_of(fd: bool, brs: bool) -> u32 {
    (if fd { 1u32 } else { 0 }) | (if brs { 2u32 } else { 0 })
}

fn frame_kind(fd: bool, brs: bool) -> (r: FrameType)
    ensures
        r.0 == kind_of(fd, brs),
{
    FrameType(
        (if fd {
            1u32
        } else {
            0
        }) | (if brs {
            2u32
        } else {
            0
        }),
    )
}

/// The first bytes of a payload, as many as the object declares.
pub open spec fn declared_data(data: Seq<u8>, declared: u8) -> Seq<u8> {
    data.subrange(0, clipped(declared as nat, data.len() as int))
}

fn take_data(data: &[u8], declared: u8) -> (r: Vec<u8>)
    ensures
        r@ == declared_data(data@, declared),
{
    let n: usize = if (declared as usize) < data.len() {
        declared as usize
    } else {
        data.len()
    };
    read_bytes(data, 0, n)
}

/// Whether a frame is the one that an object stands for.
pub open spec fn is_can_frame_of(frame: CanFrame, o: BlfObject) -> bool {
    match o {
        BlfObject::CanMessage(m) => frame.is_frame(
            dec(m.channel as nat),
            m.id,
            declared_data(m.data@, m.dlc),
            m.flags.0 == CanFlags::TX,
            FrameType::CAN20B,
        ),
        BlfObject::CanMessage2(m) => frame.is_frame(
            dec(m.channel as nat),
            m.id,
            declared_data(m.data@, m.dlc),
            m.flags.0 == CanFlags::TX,
            FrameType::CAN20B,
        ),
        BlfObject::CanFdMessage(m) => frame.is_frame(
            dec(m.channel as nat),
            m.id,
            declared_data(m.data@, m.valid_data_bytes),
            m.flags.0 == CanFlags::TX,
            kind_of(m.fd_flags.0 & 1 == 1, m.fd_flags.0 & 2 == 2),
        ),
        BlfObject::CanFdMessage64(m) => {
            let flags = swapped_flags(m.fd_flags.0);
            frame.is_frame(
                dec(m.channel as nat),
                m.id,
                m.data@,
                m.dir > 0,
                kind_of(flags & 0x1000 == 0x1000, flags & 0x2000 == 0x2000),
            )
        },
        _ => frame.is_frame("0"@, 0, Seq::empty(), false, FrameType::CAN20B),
    }
}

/// The flags as a reader sees them that swaps the four bytes and keeps the low 16 bits.
pub open spec fn swapped_flags(flags: u32) -> u32 {
    (flags / 0x100_0000 + 256 * (flags / 0x1_0000 % 256)) as u32
}

fn channel_name(channel: u16) -> (r: String)
    ensures
        r@ == dec(channel as nat),
{
    let mut name = String::new();
    push_dec(&mut name, channel as u64);
    proof {
        assert(name@ =~= dec(channel as nat));
    }
    name
}

fn can_frame_from_object(o: &BlfObject) -> (r: CanFrame)
    ensures
        is_can_frame_of(r, *o),
{
    match o {
        BlfObject::CanMessage(m) => CanFrame::new(
            channel_name(m.channel),
            m.id,
            take_data(&m.data, m.dlc),
            m.flags.0 == CanFlags::TX,
            FrameType(FrameType::CAN20B),
        ),
        BlfObject::CanMessage2(m) => CanFrame::new(
            channel_name(m.channel),
            m.id,
            take_data(&m.data, m.dlc),
            m.flags.0 == CanFlags::TX,
            FrameType(FrameType::CAN20B),
        ),
        BlfObject::CanFdMessage(m) => CanFrame::new(
            channel_name(m.channel),
            m.id,
            take_data(&m.data, m.valid_data_bytes),
            m.flags.0 == CanFlags::TX,
            frame_kind(
                m.fd_flags.contains(CanFdFlags(CanFdFlags::EDL)),
                m.fd_flags.contains(CanFdFlags(CanFdFlags::BRS)),
            ),
        ),
        BlfObject::CanFdMessage64(m) => {
            let flags = m.fd_flags_cs();
            let data = read_bytes(&m.data, 0, m.data.len());
            proof {
                assert(data@ =~= m.data@);
            }
            CanFrame::new(
                channel_name(m.channel as u16),
                m.id,
                data,
                m.dir > 0,
                frame_kind(
                    flags.contains(CanFd64Flags(CanFd64Flags::EDL)),
                    flags.contains(CanFd64Flags(CanFd64Flags::BRS)),
                ),
            )
        },
        _ => CanFrame::new(
            "0".to_string(),
            0,
            Vec::new(),
            false,
            FrameType(FrameType::CAN20B),
        ),
    }
}

/// Whether a sample is the one that a LIN object stands for.
pub open spec fn is_lin_sample_of(s: LinSample, o: BlfObject) -> bool {
    &&& s.timestamp == o.head().timestamp
    &&& s.object_flags == o.head().object_flags
    &&& s.frame.elapsed.total() == 0
    &&& (match o {
        BlfObject::LinMessage(m) => {
            &&& s.frame.bus_id@ == dec(m.channel as nat)
            &&& s.frame.id == m.id
            &&& s.frame.data@ == declared_data(m.data@, m.dlc)
            &&& s.frame.is_master_frame == (m.dir != 0)
        },
        BlfObject::LinMessage2(m) => {
            &&& s.frame.bus_id@ == dec(m.channel as nat)
            &&& s.frame.id == m.id
            &&& s.frame.data@ == declared_data(m.data@, m.dlc)
            &&& s.frame.is_master_frame == (m.dir != 0)
        },
        _ => false,
    })
}

fn lin_sample_from_object(o: &BlfObject) -> (r: Option<LinSample>)
    ensures
        match r {
            Some(s) => is_lin_sample_of(s, *o),
            None => !(o is LinMessage) && !(o is LinMessage2),
        },
{
    match o {
        BlfObject::LinMessage(m) => Some(
            LinSample {
                frame: LinFrame::new(
                    channel_name(m.channel),
                    m.id,
                    take_data(&m.data, m.dlc),
                    m.dir != 0,
                ),
                timestamp: m.header.timestamp,
                object_flags: m.header.object_flags,
            },
        ),
        BlfObject::LinMessage2(m) => Some(
            LinSample {
                frame: LinFrame::new(
                    channel_name(m.channel),
                    m.id,
                    take_data(&m.data, m.dlc),
                    m.dir != 0,
                ),
                timestamp: m.header.timestamp,
                object_flags: m.header.object_flags,
            },
        ),
        _ => None,
    }
}

fn is_one_of_types(o: &BlfObject, types: &[ObjectType]) -> (r: bool)
    ensures
        r == passes(Some(types@), *o),
{
    crate::blf::file::contains_type(types, o.object_type())
}

/// The two hexadecimal digits of a byte.
pub open spec fn hex2(v: u8) -> Seq<char> {
    seq![digit_char((v / 16) as nat), digit_char((v % 16) as nat)]
}

/// How adding a LIN frame fails, if it does.
pub open spec fn lin_frame_failure(frame: LinFrame) -> Option<Failure> {
    if frame.id > 0x3f {
        Some(Failure::Write("LIN identifier 0x"@ + hex2(frame.id) + " exceeds 0x3F"@))
    } else if frame.data@.len() > 8 {
        Some(
            Failure::Write("LIN frame data length "@ + dec(frame.data@.len()) + " exceeds 8"@),
        )
    } else {
        None
    }
}

/// How adding a CAN frame fails, if it does.
pub open spec fn can_frame_failure(frame: CanFrame) -> Option<Failure> {
    if frame.frame_type.spec_is_classic() && frame.data@.len() > 8 {
        Some(
            Failure::Write(
                "classic CAN frame data length "@ + dec(frame.data@.len()) + " exceeds 8"@,
            ),
        )
    } else if !frame.frame_type.spec_is_classic() && frame.data@.len() > 64 {
        Some(
            Failure::Write("CAN FD frame data length "@ + dec(frame.data@.len()) + " exceeds 64"@),
        )
    } else {
        None
    }
}

/// Whether an object is the one that a CAN frame is written as.
pub open spec fn is_object_of_can_frame(
    o: BlfObject,
    frame: CanFrame,
    timestamp: u64,
    channel: u16,
    object_flags: ObjectFlags,
) -> bool {
    let tx = if frame.is_master_frame {
        CanFlags::TX
    } else {
        CanFlags::RX
    };
    let kind = frame.frame_type.0;
    if frame.frame_type.spec_is_classic() {
        match o {
            BlfObject::CanMessage(m) => {
                &&& m.header.is_new(ObjectType::CanMessage.raw(), object_flags, timestamp, 48)
                &&& m.channel == channel
                &&& m.flags.0 == tx
                &&& m.dlc == frame.data@.len()
                &&& m.id == frame.id
                &&& m.data@ == padded(frame.data@, 8)
            },
            _ => false,
        }
    } else {
        match o {
            BlfObject::CanFdMessage(m) => {
                &&& m.header.is_new(ObjectType::CanFdMessage.raw(), object_flags, timestamp, 120)
                &&& m.channel == channel
                &&& m.flags.0 == tx
                &&& m.dlc == dlc_of_length(frame.data@.len() as int)
                &&& m.id == frame.id
                &&& m.frame_length == 0
                &&& m.arb_bit_count == 0
                &&& m.reserved == 0
                &&& m.reserved2 == 0
                &&& m.reserved3 == 0
                &&& m.fd_flags.0 == (if kind & 1 == 1 { 1u8 } else { 0 }) | (if kind & 2 == 2 {
                    2u8
                } else {
                    0
                })
                &&& m.valid_data_bytes == frame.data@.len()
                &&& m.data@ == padded(frame.data@, 64)
            },
            _ => false,
        }
    }
}

/// Whether a LIN frame can be added.
fn check_lin_frame(frame: &LinFrame) -> (r: Result<()>)
    ensures
        match r {
            Ok(_) => lin_frame_failure(*frame) is None,
            Err(e) => lin_frame_failure(*frame) == Some(e@),
        },
{
    if frame.id > 0x3f {
        let mut message = "LIN identifier 0x".to_string();
        message.push(digit((frame.id / 16) as u64));
        message.push(digit((frame.id % 16) as u64));
        proof {
            assert(message@ =~= "LIN identifier 0x"@ + hex2(frame.id));
        }
        message.append(" exceeds 0x3F");
        return Err(Error::Write(message));
    }
    if frame.data.len() > 8 {
        let mut message = "LIN frame data length ".to_string();
        push_dec(&mut message, frame.data.len() as u64);
        message.append(" exceeds 8");
        return Err(Error::Write(message));
    }
    Ok(())
}

impl BlfFile {
    /// The time of a frame, counted from the first frame that was added. The first one sets
    /// the time from which the others are counted.
    pub fn frame_delta(&mut self, elapsed: Span) -> (r: Result<Span>)
        requires
            elapsed.valid(),
            old(self).frame_time_base matches Some(base) ==> base.valid(),
        ensures
            final(self).header == old(self).header,
            final(self).objects == old(self).objects,
            final(self).frame_time_base == Some(time_base(old(self).frame_time_base, elapsed)),
            ({
                let base = time_base(old(self).frame_time_base, elapsed);
                match r {
                    Ok(d) => d.valid() && d.total() == elapsed.total() - base.total(),
                    Err(e) => {
                        &&& elapsed.total() < base.total()
                        &&& e@ == Failure::Write(
                            "frame elapsed is earlier than the first frame's"@,
                        )
                    },
                }
            }),
    {
        let base = match self.frame_time_base {
            Some(base) => base,
            None => elapsed,
        };
        self.frame_time_base = Some(base);
        match elapsed.checked_sub(base) {
            Some(d) => Ok(d),
            None => Err(
                Error::Write("frame elapsed is earlier than the first frame's".to_string()),
            ),
        }
    }

    /// Adds a CAN frame with a timestamp in the unit that the flags name: a classic frame as
    /// a CAN message, any other as a CAN FD message.
    pub fn add_can_frame(
        &mut self,
        frame: &CanFrame,
        timestamp: u64,
        channel: u16,
        object_flags: ObjectFlags,
    ) -> (r: Result<()>)
        ensures
            final(self).header == old(self).header,
            final(self).frame_time_base == old(self).frame_time_base,
            match r {
                Ok(_) => {
                    &&& can_frame_failure(*frame) is None
                    &&& final(self).objects@.len() == old(self).objects@.len() + 1
                    &&& final(self).objects@.drop_last() == old(self).objects@
                    &&& is_object_of_can_frame(
                        final(self).objects@.last(),
                        *frame,
                        timestamp,
                        channel,
                        object_flags,
                    )
                },
                Err(e) => {
                    &&& can_frame_failure(*frame) == Some(e@)
                    &&& final(self).objects@ == old(self).objects@
                },
            },
    {
        let object = if frame.frame_type.is_classic() {
            if frame.data.len() > 8 {
                let mut message = "classic CAN frame data length ".to_string();
                push_dec(&mut message, frame.data.len() as u64);
                message.append(" exceeds 8");
                return Err(Error::Write(message));
            }
            BlfObject::CanMessage(
                CanMessage::new(
                    object_flags,
                    timestamp,
                    channel,
                    frame.id,
                    &frame.data,
                    frame.is_master_frame,
                ),
            )
        } else {
            if frame.data.len() > 64 {
                let mut message = "CAN FD frame data length ".to_string();
                push_dec(&mut message, frame.data.len() as u64);
                message.append(" exceeds 64");
                return Err(Error::Write(message));
            }
            BlfObject::CanFdMessage(
                CanFdMessage::new(
                    object_flags,
                    timestamp,
                    channel,
                    frame.id,
                    &frame.data,
                    frame.is_master_frame,
                    frame.frame_type.contains(FrameType(FrameType::FD)),
                    frame.frame_type.contains(FrameType(FrameType::BRS)),
                ),
            )
        };
        self.objects.push(object);
        proof {
            assert(self.objects@.drop_last() =~= old(self).objects@);
        }
        Ok(())
    }

    /// Enumerates the CAN data frames of a channel and identifier. A negative channel
    /// matches all channels; `u32::MAX` matches every identifier.
    pub fn enum_can_frames(&self, channel: i32, id: u32) -> (r: Vec<CanFrame>)
        ensures
            ({
                let found = positions(self.objects@, can_wanted(channel, id));
                &&& r@.len() == found.len()
                &&& forall|i: int|
                    0 <= i < r@.len() ==> is_can_frame_of(
                        #[trigger] r@[i],
                        self.objects@[found[i]],
                    )
            }),
            forall|k: int| 0 <= k < r@.len() && id != u32::MAX ==> (#[trigger] r@[k]).id == id,
            forall|k: int|
                0 <= k < r@.len() && 0 <= channel <= 0xffff ==> (#[trigger] r@[k]).bus_id@ == dec(
                    channel as nat,
                ),
    {
        let types = BlfFile::can_data_frames();
        let ghost wanted = can_wanted(channel, id);
        let mut r: Vec<CanFrame> = Vec::new();
        let mut i: usize = 0;
        while i < self.objects.len()
            invariant
                i <= self.objects@.len(),
                types@ == can_types(),
                wanted == can_wanted(channel, id),
                are_can_frames(
                    r@,
                    self.objects@,
                    positions(self.objects@.subrange(0, i as int), wanted),
                ),
            decreases self.objects.len() - i,
        {
            let ghost next = self.objects@.subrange(0, i + 1);
            proof {
                assert(next.drop_last() =~= self.objects@.subrange(0, i as int));
                assert(next.last() == self.objects@[i as int]);
            }
            let o = &self.objects[i];
            let ghost before = r@;
            if is_one_of_types(o, &types) && o.matches_can_filter(channel, id) {
                r.push(can_frame_from_object(o));
            }
            proof {
                let now = positions(next, wanted);
                assert forall|j: int| 0 <= j < r@.len() implies is_can_frame_of(
                    #[trigger] r@[j],
                    self.objects@[now[j]],
                ) by {
                    if j < before.len() {
                        assert(r@[j] == before[j]);
                    }
                }
            }
            i += 1;
        }
        proof {
            assert(self.objects@.subrange(0, i as int) =~= self.objects@);
            law_can_frames_found(self.objects@, r@, channel, id);
        }
        r
    }

    /// The time of a LIN frame, counted from the first frame that was added. A frame that
    /// cannot be added changes nothing; the first one that can sets the time from which the
    /// others are counted.
    pub fn lin_frame_delta(&mut self, frame: &LinFrame) -> (r: Result<Span>)
        requires
            frame.elapsed.valid(),
            old(self).frame_time_base matches Some(base) ==> base.valid(),
        ensures
            final(self).header == old(self).header,
            final(self).objects == old(self).objects,
            lin_frame_failure(*frame) matches Some(f) ==> {
                &&& r is Err
                &&& r->Err_0@ == f
                &&& *final(self) == *old(self)
            },
            lin_frame_failure(*frame) is None ==> {
                let base = time_base(old(self).frame_time_base, frame.elapsed);
                &&& final(self).frame_time_base == Some(base)
                &&& match r {
                    Ok(d) => d.valid() && d.total() == frame.elapsed.total() - base.total(),
                    Err(e) => {
                        &&& frame.elapsed.total() < base.total()
                        &&& e@ == Failure::Write(
                            "frame elapsed is earlier than the first frame's"@,
                        )
                    },
                }
            },
    {
        check_lin_frame(frame)?;
        self.frame_delta(frame.elapsed)
    }

    /// Adds a current-generation LIN message object to the file, with a timestamp in the
    /// unit that the flags name and the checksum of the frame.
    pub fn add_lin_frame(
        &mut self,
        frame: &LinFrame,
        timestamp: u64,
        checksum: u8,
        channel: u16,
        checksum_type: LinChecksumType,
        object_flags: ObjectFlags,
    ) -> (r: Result<()>)
        ensures
            final(self).header == old(self).header,
            final(self).frame_time_base == old(self).frame_time_base,
            match r {
                Ok(_) => {
                    &&& lin_frame_failure(*frame) is None
                    &&& final(self).objects@.len() == old(self).objects@.len() + 1
                    &&& final(self).objects@.drop_last() == old(self).objects@
                    &&& final(self).objects@.last() matches BlfObject::LinMessage2(m) && m.is_new(
                        object_flags,
                        timestamp,
                        channel,
                        frame.id,
                        frame.data@,
                        checksum,
                        if checksum_type is CalcChecksum {
                            0
                        } else {
                            1
                        },
                        frame.is_master_frame,
                    )
                },
                Err(e) => {
                    &&& lin_frame_failure(*frame) == Some(e@)
                    &&& final(self).objects@ == old(self).objects@
                },
            },
    {
        check_lin_frame(frame)?;
        let checksum_model: u8 = match checksum_type {
            LinChecksumType::CalcChecksum => 0,
            LinChecksumType::CalcChecksumEnhanced => 1,
        };
        self.objects.push(
            BlfObject::LinMessage2(
                LinMessage2::new(
                    object_flags,
                    timestamp,
                    channel,
                    frame.id,
                    &frame.data,
                    checksum,
                    checksum_model,
                    frame.is_master_frame,
                ),
            ),
        );
        proof {
            assert(self.objects@.drop_last() =~= old(self).objects@);
        }
        Ok(())
    }

    /// Enumerates decoded LIN data frames. A negative channel matches all
    /// channels; `u8::MAX` matches every LIN identifier.
    pub fn enum_lin_frames(&self, channel: i32, id: u8) -> (r: Vec<LinSample>)
        ensures
            ({
                let found = positions(self.objects@, lin_wanted(channel, id));
                &&& r@.len() == found.len()
                &&& forall|i: int|
                    0 <= i < r@.len() ==> is_lin_sample_of(
                        #[trigger] r@[i],
                        self.objects@[found[i]],
                    )
            }),
            forall|k: int| 0 <= k < r@.len() && id != u8::MAX ==> (#[trigger] r@[k]).frame.id == id,
            forall|k: int|
                0 <= k < r@.len() && 0 <= channel <= 0xffff ==> (#[trigger] r@[k]).frame.bus_id@
                    == dec(channel as nat),
    {
        let types = BlfFile::lin_data_frames();
        let ghost wanted = lin_wanted(channel, id);
        let mut r: Vec<LinSample> = Vec::new();
        let mut i: usize = 0;
        while i < self.objects.len()
            invariant
                i <= self.objects@.len(),
                types@ == lin_types(),
                wanted == lin_wanted(channel, id),
                are_lin_samples(
                    r@,
                    self.objects@,
                    positions(self.objects@.subrange(0, i as int), wanted),
                ),
            decreases self.objects.len() - i,
        {
            let ghost next = self.objects@.subrange(0, i + 1);
            proof {
                assert(next.drop_last() =~= self.objects@.subrange(0, i as int));
                assert(next.last() == self.objects@[i as int]);
            }
            let o = &self.objects[i];
            let ghost before = r@;
            if is_one_of_types(o, &types) && o.matches_lin_filter(channel, id) {
                if let Some(sample) = lin_sample_from_object(o) {
                    r.push(sample);
                }
            }
            proof {
                let now = positions(next, wanted);
                assert forall|j: int| 0 <= j < r@.len() implies is_lin_sample_of(
                    #[trigger] r@[j],
                    self.objects@[now[j]],
                ) by {
                    if j < before.len() {
                        assert(r@[j] == before[j]);
                    }
                }
            }
            i += 1;
        }
        proof {
            assert(self.objects@.subrange(0, i as int) =~= self.objects@);
            law_lin_frames_found(self.objects@, r@, channel, id);
        }
        r
    }
}

/// Whether the frames are those of the objects at the positions.
pub open spec fn are_can_frames(
    frames: Seq<CanFrame>,
    objects: Seq<BlfObject>,
    at: Seq<int>,
) -> bool {
    &&& frames.len() == at.len()
    &&& forall|i: int|
        0 <= i < frames.len() ==> is_can_frame_of(#[trigger] frames[i], objects[at[i]])
}

/// Whether the samples are those of the objects at the positions.
pub open spec fn are_lin_samples(
    samples: Seq<LinSample>,
    objects: Seq<BlfObject>,
    at: Seq<int>,
) -> bool {
    &&& samples.len() == at.len()
    &&& forall|i: int|
        0 <= i < samples.len() ==> is_lin_sample_of(#[trigger] samples[i], objects[at[i]])
}

/// A CAN frame that is added to a file comes out of it with its identifier, data and
/// direction: the object that it is written as stands for it again.
pub proof fn law_can_frame_of_added(
    o: BlfObject,
    frame: CanFrame,
    back: CanFrame,
    timestamp: u64,
    channel: u16,
    object_flags: ObjectFlags,
)
    requires
        can_frame_failure(frame) is None,
        is_object_of_can_frame(o, frame, timestamp, channel, object_flags),
        is_can_frame_of(back, o),
    ensures
        back.bus_id@ == dec(channel as nat),
        back.id == frame.id,
        back.data@ == frame.data@,
        back.is_master_frame == frame.is_master_frame,
        frame.frame_type.0 <= 3 && (frame.frame_type.0 != 2) ==> back.frame_type
            == frame.frame_type,
{
    let kind = frame.frame_type.0;
    if frame.frame_type.spec_is_classic() {
        assert(declared_data(padded(frame.data@, 8), frame.data@.len() as u8) =~= frame.data@);
        assert(kind <= 3 && kind != 2 && kind & 1 == 0 ==> kind == 0) by (bit_vector);
    } else {
        assert(declared_data(padded(frame.data@, 64), frame.data@.len() as u8) =~= frame.data@);
        let b1: u8 = if kind & 1 == 1 {
            1
        } else {
            0
        };
        let b2: u8 = if kind & 2 == 2 {
            2
        } else {
            0
        };
        assert(b1 == 1 || b1 == 0);
        assert(b2 == 2 || b2 == 0);
        assert((b1 == 1u8 || b1 == 0u8) && (b2 == 2u8 || b2 == 0u8) ==> ((b1 | b2) & 1 == 1 <==> b1
            == 1) && ((b1 | b2) & 2 == 2 <==> b2 == 2)) by (bit_vector);
        assert(kind <= 3 ==> kind == (if kind & 1 == 1 {
            1u32
        } else {
            0
        }) | (if kind & 2 == 2 {
            2u32
        } else {
            0
        })) by (bit_vector);
    }
}

} // verus!
