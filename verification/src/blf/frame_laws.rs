//! What the frames that are found in a file have to do with its objects.

use crate::blf::bytes::lemma_low16;
use crate::blf::can::{dlc_of_length, length_of_dlc, CanFdMessage, CanMessage, CanMessage2};
use crate::blf::file::{can_types, has_type, lin_types};
use crate::blf::flags::ObjectFlags;
use crate::blf::frames::{
    are_can_frames, are_lin_samples, can_frame_failure, can_wanted, is_can_frame_of,
    is_lin_sample_of, is_object_of_can_frame, lin_frame_failure, lin_wanted, positions, LinSample,
};
use crate::blf::lin::{LinMessage, LinMessage2};
use crate::blf::object::BlfObject;
use crate::bus::{CanFrame, LinFrame};
use crate::text::dec;
use vstd::prelude::*;

verus! {

/// Among objects, those for which a condition holds are found, each once and in their order,
/// and no others.
pub proof fn law_positions(objects: Seq<BlfObject>, wanted: spec_fn(BlfObject) -> bool)
    ensures
        forall|i: int|
            #![trigger objects[i]]
            0 <= i < objects.len() ==> (wanted(objects[i]) <==> positions(
                objects,
                wanted,
            ).contains(i)),
        forall|k: int|
            0 <= k < positions(objects, wanted).len() ==> 0 <= #[trigger] positions(
                objects,
                wanted,
            )[k] < objects.len() && wanted(objects[positions(objects, wanted)[k]]),
        forall|j: int, k: int|
            0 <= j < k < positions(objects, wanted).len() ==> #[trigger] positions(objects, wanted)[j]
                < #[trigger] positions(objects, wanted)[k],
    decreases objects.len(),
{
    if objects.len() > 0 {
        let less = objects.drop_last();
        law_positions(less, wanted);
        let before = positions(less, wanted);
        let all = positions(objects, wanted);
        let n = objects.len() - 1;
        assert(forall|k: int| 0 <= k < before.len() ==> all[k] == before[k]);
        assert forall|k: int| 0 <= k < all.len() implies 0 <= #[trigger] all[k] < objects.len()
            && wanted(objects[all[k]]) by {
            if k < before.len() {
                assert(less[before[k]] == objects[before[k]]);
            }
        }
        assert forall|i: int|
            #![trigger objects[i]]
            0 <= i < objects.len() implies (wanted(objects[i]) <==> all.contains(i)) by {
            if i < n {
                assert(less[i] == objects[i]);
                if before.contains(i) {
                    let k = choose|k: int| 0 <= k < before.len() && before[k] == i;
                    assert(all[k] == i);
                }
                if all.contains(i) {
                    let k = choose|k: int| 0 <= k < all.len() && all[k] == i;
                    assert(k < before.len());
                    assert(before[k] == i);
                }
            } else {
                if wanted(objects[i]) {
                    assert(all[before.len() as int] == i);
                }
                if all.contains(i) {
                    let k = choose|k: int| 0 <= k < all.len() && all[k] == i;
                    if k < before.len() {
                        assert(before[k] < less.len());
                    }
                }
            }
        }
    }
}

/// The frame of a CAN data object is on the bus that the object's channel names, has its
/// identifier and direction, and has as many bytes as the object says that it holds, each where
/// it stands in the object. A CAN FD object tells whether its frame is one of CAN FD and
/// switches the bit rate; its 64-byte form does so in the bytes of its flags in the other order.
pub proof fn law_can_frame_of_object(frame: CanFrame, o: BlfObject)
    requires
        is_can_frame_of(frame, o),
    ensures
        frame.elapsed.total() == 0,
        o matches BlfObject::CanMessage(m) ==> {
            &&& frame.bus_id@ == dec(m.channel as nat)
            &&& frame.id == m.id
            &&& frame.is_master_frame == (m.flags.0 == 1)
            &&& frame.frame_type.0 == 0
            &&& frame.data@.len() == if m.dlc < 8 { m.dlc as int } else { 8 }
            &&& forall|i: int| 0 <= i < frame.data@.len() ==> #[trigger] frame.data@[i] == m.data@[i]
        },
        o matches BlfObject::CanMessage2(m) ==> {
            &&& frame.bus_id@ == dec(m.channel as nat)
            &&& frame.id == m.id
            &&& frame.is_master_frame == (m.flags.0 == 1)
            &&& frame.frame_type.0 == 0
            &&& frame.data@.len() == if m.dlc < 8 { m.dlc as int } else { 8 }
            &&& forall|i: int| 0 <= i < frame.data@.len() ==> #[trigger] frame.data@[i] == m.data@[i]
        },
        o matches BlfObject::CanFdMessage(m) ==> {
            &&& frame.bus_id@ == dec(m.channel as nat)
            &&& frame.id == m.id
            &&& frame.is_master_frame == (m.flags.0 == 1)
            &&& frame.frame_type.0 < 4
            &&& frame.frame_type.0 % 2 == 1 <==> m.fd_flags.0 % 2 == 1
            &&& frame.frame_type.0 >= 2 <==> m.fd_flags.0 / 2 % 2 == 1
            &&& frame.data@.len() == if m.valid_data_bytes < 64 { m.valid_data_bytes as int } else { 64 }
            &&& forall|i: int| 0 <= i < frame.data@.len() ==> #[trigger] frame.data@[i] == m.data@[i]
        },
        o matches BlfObject::CanFdMessage64(m) ==> {
            &&& frame.bus_id@ == dec(m.channel as nat)
            &&& frame.id == m.id
            &&& frame.is_master_frame == (m.dir > 0)
            &&& frame.frame_type.0 < 4
            &&& frame.frame_type.0 % 2 == 1 <==> m.fd_flags.0 / 0x10_0000 % 2 == 1
            &&& frame.frame_type.0 >= 2 <==> m.fd_flags.0 / 0x20_0000 % 2 == 1
            &&& frame.data@ == m.data@
        },
{
    assert(0u32 | 0 == 0 && 1u32 | 0 == 1 && 0u32 | 2 == 2 && 1u32 | 2 == 3) by (bit_vector);
    match o {
        BlfObject::CanFdMessage(m) => {
            let x = m.fd_flags.0;
            assert((x & 1 == 1) == (x % 2 == 1) && (x & 2 == 2) == (x / 2 % 2 == 1)) by (bit_vector);
        },
        BlfObject::CanFdMessage64(m) => {
            let x = m.fd_flags.0;
            let y = (x / 0x100_0000 + 256 * (x / 0x1_0000 % 256)) as u32;
            assert((y & 0x1000 == 0x1000) == (x / 0x10_0000 % 2 == 1) && (y & 0x2000 == 0x2000) == (x
                / 0x20_0000 % 2 == 1)) by (bit_vector)
                requires
                    y == (x / 0x100_0000u32 + 256u32 * (x / 0x1_0000u32 % 256u32)) as u32,
            ;
        },
        _ => {},
    }
}

/// Which objects are CAN data frames at all: received or sent CAN messages, and CAN FD messages,
/// that say that they hold data.
pub proof fn law_can_objects(o: BlfObject)
    ensures
        can_wanted((-1) as i32, u32::MAX)(o) <==> (match o {
            BlfObject::CanMessage(m) => m.dlc != 0 && m.flags.0 < 2,
            BlfObject::CanMessage2(m) => m.dlc != 0 && m.flags.0 < 2,
            BlfObject::CanFdMessage(m) => m.dlc != 0 && m.flags.0 < 2,
            BlfObject::CanFdMessage64(m) => m.valid_data_bytes != 0,
            _ => false,
        }) && (o.head().base.object_type == 1 || o.head().base.object_type == 86
            || o.head().base.object_type == 100 || o.head().base.object_type == 101),
{
    lemma_can_types(o.head().base.object_type);
}

proof fn lemma_can_types(raw: u32)
    ensures
        has_type(can_types(), raw) <==> raw == 1 || raw == 86 || raw == 100 || raw == 101,
{
    let types = can_types();
    assert(types[0].raw() == 1 && types[1].raw() == 86 && types[2].raw() == 100 && types[3].raw()
        == 101);
}

proof fn lemma_lin_types(raw: u32)
    ensures
        has_type(lin_types(), raw) <==> raw == 11 || raw == 57,
{
    let types = lin_types();
    assert(types[0].raw() == 11 && types[1].raw() == 57);
}

/// A channel and an identifier select, among all the CAN frames of a file, those on the bus that
/// the channel names with that identifier.
pub proof fn law_can_frames_selected(o: BlfObject, frame: CanFrame, channel: i32, id: u32)
    requires
        is_can_frame_of(frame, o),
        channel <= 0xffff,
    ensures
        can_wanted(channel, id)(o) <==> {
            &&& can_wanted((-1) as i32, u32::MAX)(o)
            &&& id == u32::MAX || frame.id == id
            &&& channel < 0 || frame.bus_id@ == dec(channel as nat)
        },
{
    if channel >= 0 {
        lemma_low16(channel as int);
        match o {
            BlfObject::CanMessage(m) => {
                lemma_dec_unique(m.channel as nat, channel as nat);
            },
            BlfObject::CanMessage2(m) => {
                lemma_dec_unique(m.channel as nat, channel as nat);
            },
            BlfObject::CanFdMessage(m) => {
                lemma_dec_unique(m.channel as nat, channel as nat);
            },
            BlfObject::CanFdMessage64(m) => {
                lemma_dec_unique(m.channel as nat, channel as nat);
            },
            _ => {},
        }
    }
}

proof fn lemma_dec_unique(a: nat, b: nat)
    ensures
        dec(a) == dec(b) <==> a == b,
{
    crate::numeral::law_magnitude_of_dec(a);
    crate::numeral::law_magnitude_of_dec(b);
}

/// The CAN frames that are found for a channel and an identifier: there is one for each CAN data
/// object on that channel with that identifier, in the order of the objects, with its identifier
/// and on its bus.
pub proof fn law_can_frames_found(
    objects: Seq<BlfObject>,
    frames: Seq<CanFrame>,
    channel: i32,
    id: u32,
)
    requires
        are_can_frames(frames, objects, positions(objects, can_wanted(channel, id))),
    ensures
        forall|k: int|
            0 <= k < frames.len() && id != u32::MAX ==> (#[trigger] frames[k]).id == id,
        forall|k: int|
            0 <= k < frames.len() && 0 <= channel <= 0xffff ==> (#[trigger] frames[k]).bus_id@ == dec(
                channel as nat,
            ),
        forall|i: int|
            #![trigger objects[i]]
            0 <= i < objects.len() && can_wanted(channel, id)(objects[i]) ==> exists|k: int|
                0 <= k < frames.len() && is_can_frame_of(#[trigger] frames[k], objects[i]),
{
    let wanted = can_wanted(channel, id);
    let at = positions(objects, wanted);
    law_positions(objects, wanted);
    assert forall|k: int| 0 <= k < frames.len() implies (id != u32::MAX ==> (
    #[trigger] frames[k]).id == id) && (0 <= channel <= 0xffff ==> frames[k].bus_id@ == dec(
        channel as nat,
    )) by {
        assert(wanted(objects[at[k]]));
        law_can_frame_of_object(frames[k], objects[at[k]]);
        if channel <= 0xffff {
            law_can_frames_selected(objects[at[k]], frames[k], channel, id);
        }
    }
    assert forall|i: int|
        #![trigger objects[i]]
        0 <= i < objects.len() && wanted(objects[i]) implies exists|k: int|
        0 <= k < frames.len() && is_can_frame_of(#[trigger] frames[k], objects[i]) by {
        assert(at.contains(i));
        let k = choose|k: int| 0 <= k < at.len() && at[k] == i;
        assert(is_can_frame_of(frames[k], objects[at[k]]));
    }
}

/// A CAN frame with data that is added to a file is among the CAN frames of the file, and among
/// those of its channel and identifier.
pub proof fn law_added_can_frame_found(
    o: BlfObject,
    frame: CanFrame,
    timestamp: u64,
    channel: u16,
    object_flags: ObjectFlags,
)
    requires
        can_frame_failure(frame) is None,
        is_object_of_can_frame(o, frame, timestamp, channel, object_flags),
    ensures
        can_wanted((-1) as i32, u32::MAX)(o) <==> frame.data@.len() > 0,
        can_wanted(channel as i32, frame.id)(o) <==> frame.data@.len() > 0,
        o.head().timestamp == timestamp,
        o.head().object_flags == object_flags,
{
    lemma_can_types(o.head().base.object_type);
    lemma_low16(channel as int);
}

/// The sample of a LIN object is on the bus that the object's channel names, has its identifier,
/// time and direction, and has as many bytes as the object says that it holds, each where it
/// stands in the object.
pub proof fn law_lin_sample_of_object(s: LinSample, o: BlfObject)
    requires
        is_lin_sample_of(s, o),
    ensures
        s.frame.elapsed.total() == 0,
        s.timestamp == o.head().timestamp,
        s.object_flags == o.head().object_flags,
        o is LinMessage || o is LinMessage2,
        o matches BlfObject::LinMessage(m) ==> {
            &&& s.frame.bus_id@ == dec(m.channel as nat)
            &&& s.frame.id == m.id
            &&& s.frame.is_master_frame <==> m.dir != 0
            &&& s.frame.data@.len() == if m.dlc < 8 { m.dlc as int } else { 8 }
            &&& forall|i: int|
                0 <= i < s.frame.data@.len() ==> #[trigger] s.frame.data@[i] == m.data@[i]
        },
        o matches BlfObject::LinMessage2(m) ==> {
            &&& s.frame.bus_id@ == dec(m.channel as nat)
            &&& s.frame.id == m.id
            &&& s.frame.is_master_frame <==> m.dir != 0
            &&& s.frame.data@.len() == if m.dlc < 8 { m.dlc as int } else { 8 }
            &&& forall|i: int|
                0 <= i < s.frame.data@.len() ==> #[trigger] s.frame.data@[i] == m.data@[i]
        },
{
}

/// Which objects are LIN data frames at all: LIN messages with an identifier of six bits, up to
/// eight bytes and a known direction.
pub proof fn law_lin_objects(o: BlfObject)
    ensures
        lin_wanted((-1) as i32, u8::MAX)(o) <==> (match o {
            BlfObject::LinMessage(m) => m.id < 64 && m.dlc < 9 && m.dir < 3,
            BlfObject::LinMessage2(m) => m.id < 64 && m.dlc < 9 && m.dir < 3,
            _ => false,
        }) && (o.head().base.object_type == 11 || o.head().base.object_type == 57),
{
    lemma_lin_types(o.head().base.object_type);
}

/// A channel and an identifier select, among all the LIN frames of a file, those on the bus that
/// the channel names with that identifier.
pub proof fn law_lin_frames_selected(o: BlfObject, s: LinSample, channel: i32, id: u8)
    requires
        is_lin_sample_of(s, o),
        channel <= 0xffff,
    ensures
        lin_wanted(channel, id)(o) <==> {
            &&& lin_wanted((-1) as i32, u8::MAX)(o)
            &&& id == u8::MAX || s.frame.id == id
            &&& channel < 0 || s.frame.bus_id@ == dec(channel as nat)
        },
{
    if channel >= 0 {
        lemma_low16(channel as int);
        match o {
            BlfObject::LinMessage(m) => {
                lemma_dec_unique(m.channel as nat, channel as nat);
            },
            BlfObject::LinMessage2(m) => {
                lemma_dec_unique(m.channel as nat, channel as nat);
            },
            _ => {},
        }
    }
}

/// The LIN frames that are found for a channel and an identifier: there is one for each LIN data
/// object on that channel with that identifier, in the order of the objects, with its identifier
/// and on its bus.
pub proof fn law_lin_frames_found(
    objects: Seq<BlfObject>,
    samples: Seq<LinSample>,
    channel: i32,
    id: u8,
)
    requires
        are_lin_samples(samples, objects, positions(objects, lin_wanted(channel, id))),
    ensures
        forall|k: int|
            0 <= k < samples.len() && id != u8::MAX ==> (#[trigger] samples[k]).frame.id == id,
        forall|k: int|
            0 <= k < samples.len() && 0 <= channel <= 0xffff ==> (
            #[trigger] samples[k]).frame.bus_id@ == dec(channel as nat),
        forall|k: int|
            0 <= k < samples.len() ==> (#[trigger] samples[k]).frame.id < 64
                && samples[k].frame.data@.len() <= 8,
        forall|i: int|
            #![trigger objects[i]]
            0 <= i < objects.len() && lin_wanted(channel, id)(objects[i]) ==> exists|k: int|
                0 <= k < samples.len() && is_lin_sample_of(#[trigger] samples[k], objects[i]),
{
    let wanted = lin_wanted(channel, id);
    let at = positions(objects, wanted);
    law_positions(objects, wanted);
    assert forall|k: int| 0 <= k < samples.len() implies {
        &&& id != u8::MAX ==> (#[trigger] samples[k]).frame.id == id
        &&& 0 <= channel <= 0xffff ==> samples[k].frame.bus_id@ == dec(channel as nat)
        &&& samples[k].frame.id < 64
        &&& samples[k].frame.data@.len() <= 8
    } by {
        assert(wanted(objects[at[k]]));
        law_lin_sample_of_object(samples[k], objects[at[k]]);
        if channel <= 0xffff {
            law_lin_frames_selected(objects[at[k]], samples[k], channel, id);
        }
    }
    assert forall|i: int|
        #![trigger objects[i]]
        0 <= i < objects.len() && wanted(objects[i]) implies exists|k: int|
        0 <= k < samples.len() && is_lin_sample_of(#[trigger] samples[k], objects[i]) by {
        assert(at.contains(i));
        let k = choose|k: int| 0 <= k < at.len() && at[k] == i;
        assert(is_lin_sample_of(samples[k], objects[at[k]]));
    }
}

/// A LIN frame that is added to a file is among the LIN frames of the file and among those of its
/// channel and identifier, and comes out of it with its identifier, data and direction. The
/// object holds its checksum and how that was formed.
pub proof fn law_lin_frame_of_added(
    m: LinMessage2,
    frame: LinFrame,
    back: LinSample,
    timestamp: u64,
    checksum: u8,
    checksum_model: u8,
    channel: u16,
    object_flags: ObjectFlags,
)
    requires
        lin_frame_failure(frame) is None,
        m.is_new(
            object_flags,
            timestamp,
            channel,
            frame.id,
            frame.data@,
            checksum,
            checksum_model,
            frame.is_master_frame,
        ),
        is_lin_sample_of(back, BlfObject::LinMessage2(m)),
    ensures
        lin_wanted((-1) as i32, u8::MAX)(BlfObject::LinMessage2(m)),
        lin_wanted(channel as i32, frame.id)(BlfObject::LinMessage2(m)),
        back.frame.bus_id@ == dec(channel as nat),
        back.frame.id == frame.id,
        back.frame.data@ == frame.data@,
        back.frame.is_master_frame == frame.is_master_frame,
        back.timestamp == timestamp,
        back.object_flags == object_flags,
        m.crc == checksum,
        m.checksum_model == checksum_model,
{
    lemma_lin_types(m.header.base.object_type);
    lemma_low16(channel as int);
    assert(back.frame.data@ =~= frame.data@);
}

/// A new CAN message stands for a frame with the channel, identifier, data and direction given.
pub proof fn law_frame_of_new_message(
    m: CanMessage,
    frame: CanFrame,
    object_flags: ObjectFlags,
    timestamp: u64,
    channel: u16,
    id: u32,
    data: Seq<u8>,
    is_tx: bool,
)
    requires
        m.is_new(object_flags, timestamp, channel, id, data, is_tx),
        is_can_frame_of(frame, BlfObject::CanMessage(m)),
        data.len() <= 8,
    ensures
        frame.bus_id@ == dec(channel as nat),
        frame.id == id,
        frame.data@ == data,
        frame.is_master_frame == is_tx,
        m.header.timestamp == timestamp,
        m.header.object_flags == object_flags,
        frame.frame_type.0 == 0,
        can_wanted((-1) as i32, u32::MAX)(BlfObject::CanMessage(m)) <==> data.len() > 0,
{
    assert(frame.data@ =~= data);
    lemma_can_types(1);
}

/// A new CAN message of the second form stands for a frame with the channel, identifier, data
/// and direction given.
pub proof fn law_frame_of_new_message2(
    m: CanMessage2,
    frame: CanFrame,
    object_flags: ObjectFlags,
    timestamp: u64,
    channel: u16,
    id: u32,
    data: Seq<u8>,
    is_tx: bool,
)
    requires
        m.is_new(object_flags, timestamp, channel, id, data, is_tx),
        is_can_frame_of(frame, BlfObject::CanMessage2(m)),
        data.len() <= 8,
    ensures
        frame.bus_id@ == dec(channel as nat),
        frame.id == id,
        frame.data@ == data,
        frame.is_master_frame == is_tx,
        m.header.timestamp == timestamp,
        m.header.object_flags == object_flags,
        frame.frame_type.0 == 0,
        m.frame_length == data.len(),
        m.bit_count == 8 * data.len(),
        can_wanted((-1) as i32, u32::MAX)(BlfObject::CanMessage2(m)) <==> data.len() > 0,
{
    assert(frame.data@ =~= data);
    lemma_can_types(86);
}

/// A new CAN FD message stands for a frame with the channel, identifier, data and direction
/// given, of CAN FD and with a switched bit rate as given.
pub proof fn law_frame_of_new_fd_message(
    m: CanFdMessage,
    frame: CanFrame,
    object_flags: ObjectFlags,
    timestamp: u64,
    channel: u16,
    id: u32,
    data: Seq<u8>,
    is_tx: bool,
    is_fd: bool,
    brs: bool,
)
    requires
        m.is_new(object_flags, timestamp, channel, id, data, is_tx, is_fd, brs),
        is_can_frame_of(frame, BlfObject::CanFdMessage(m)),
        data.len() <= 64,
    ensures
        frame.bus_id@ == dec(channel as nat),
        frame.id == id,
        frame.data@ == data,
        frame.is_master_frame == is_tx,
        m.header.timestamp == timestamp,
        m.header.object_flags == object_flags,
        frame.frame_type.0 < 4,
        frame.frame_type.0 % 2 == 1 <==> is_fd,
        frame.frame_type.0 >= 2 <==> brs,
        can_wanted((-1) as i32, u32::MAX)(BlfObject::CanFdMessage(m)) <==> data.len() > 0,
{
    assert(frame.data@ =~= data);
    lemma_can_types(100);
    let a = if is_fd {
        1u8
    } else {
        0
    };
    let b = if brs {
        2u8
    } else {
        0
    };
    assert((a == 0u8 || a == 1u8) && (b == 0u8 || b == 2u8) ==> ((a | b) & 1 == 1) == (a == 1) && ((a
        | b) & 2 == 2) == (b == 2)) by (bit_vector);
    assert(0u32 | 0 == 0 && 1u32 | 0 == 1 && 0u32 | 2 == 2 && 1u32 | 2 == 3) by (bit_vector);
}

/// A new LIN message stands for a frame with the channel, identifier, data and direction given,
/// and holds the checksum given.
pub proof fn law_sample_of_new_message(
    m: LinMessage,
    s: LinSample,
    object_flags: ObjectFlags,
    timestamp: u64,
    channel: u16,
    id: u8,
    data: Seq<u8>,
    checksum: u8,
    is_tx: bool,
)
    requires
        m.is_new(object_flags, timestamp, channel, id, data, checksum, is_tx),
        is_lin_sample_of(s, BlfObject::LinMessage(m)),
        data.len() <= 8,
    ensures
        s.frame.bus_id@ == dec(channel as nat),
        s.frame.id == id,
        s.frame.data@ == data,
        s.frame.is_master_frame == is_tx,
        m.header.timestamp == timestamp,
        m.header.object_flags == object_flags,
        m.crc == checksum,
        lin_wanted((-1) as i32, u8::MAX)(BlfObject::LinMessage(m)) <==> id < 64,
{
    assert(s.frame.data@ =~= data);
    lemma_lin_types(11);
}

/// The data length codes stand for the lengths that a CAN FD frame can have, and a number of
/// bytes has the first of them that holds it.
pub proof fn law_data_length_codes(len: int, dlc: u8)
    requires
        0 <= len <= 64,
        dlc < 16,
    ensures
        length_of_dlc(dlc) == seq![
            0int, 1, 2, 3, 4, 5, 6, 7, 8, 12, 16, 20, 24, 32, 48, 64,
        ][dlc as int],
        ({
            let lengths = seq![0int, 1, 2, 3, 4, 5, 6, 7, 8, 12, 16, 20, 24, 32, 48, 64];
            let code = dlc_of_length(len) as int;
            &&& 0 <= code < 16
            &&& len <= lengths[code]
            &&& code > 0 ==> lengths[code - 1] < len
        }),
{
}

} // verus!
