//! The numbers of object types, and what depends on them.

use crate::blf::bytes::u32_at;
use crate::blf::file_header::span_between;
use crate::blf::header::LObj;
use crate::blf::layout_laws::{law_little_endian_16, law_little_endian_32};
use crate::blf::object::BlfObject;
use crate::blf::object_type::{ObjectType, SysVarDataType};
use crate::blf::time::UnixTime;
use vstd::prelude::*;

verus! {

/// The number of each object type.
pub proof fn law_object_numbers()
    ensures
        ObjectType::Unknown.raw() == 0,
        ObjectType::CanMessage.raw() == 1,
        ObjectType::CanError.raw() == 2,
        ObjectType::CanOverload.raw() == 3,
        ObjectType::CanStatistic.raw() == 4,
        ObjectType::AppTrigger.raw() == 5,
        ObjectType::EnvInteger.raw() == 6,
        ObjectType::EnvDouble.raw() == 7,
        ObjectType::EnvString.raw() == 8,
        ObjectType::EnvData.raw() == 9,
        ObjectType::LogContainer.raw() == 10,
        ObjectType::LinMessage.raw() == 11,
        ObjectType::LinCrcError.raw() == 12,
        ObjectType::LinDlcInfo.raw() == 13,
        ObjectType::LinRcvError.raw() == 14,
        ObjectType::LinSndError.raw() == 15,
        ObjectType::LinSlvTimeout.raw() == 16,
        ObjectType::LinSchedModch.raw() == 17,
        ObjectType::LinSynError.raw() == 18,
        ObjectType::LinBaudrate.raw() == 19,
        ObjectType::LinSleep.raw() == 20,
        ObjectType::LinWakeup.raw() == 21,
        ObjectType::MostSpy.raw() == 22,
        ObjectType::MostCtrl.raw() == 23,
        ObjectType::MostLightlock.raw() == 24,
        ObjectType::MostStatistic.raw() == 25,
        ObjectType::Reserved26.raw() == 26,
        ObjectType::Reserved27.raw() == 27,
        ObjectType::Reserved28.raw() == 28,
        ObjectType::FlexrayData.raw() == 29,
        ObjectType::FlexraySync.raw() == 30,
        ObjectType::CanDriverError.raw() == 31,
        ObjectType::MostPkt.raw() == 32,
        ObjectType::MostPkt2.raw() == 33,
        ObjectType::MostHwmode.raw() == 34,
        ObjectType::MostReg.raw() == 35,
        ObjectType::MostGenreg.raw() == 36,
        ObjectType::MostNetstate.raw() == 37,
        ObjectType::MostDatalost.raw() == 38,
        ObjectType::MostTrigger.raw() == 39,
        ObjectType::FlexrayCycle.raw() == 40,
        ObjectType::FlexrayMessage.raw() == 41,
        ObjectType::LinChecksumInfo.raw() == 42,
        ObjectType::LinSpikeEvent.raw() == 43,
        ObjectType::CanDriverSync.raw() == 44,
        ObjectType::FlexrayStatus.raw() == 45,
        ObjectType::GpsEvent.raw() == 46,
        ObjectType::FrError.raw() == 47,
        ObjectType::FrStatus.raw() == 48,
        ObjectType::FrStartcycle.raw() == 49,
        ObjectType::FrRcvmessage.raw() == 50,
        ObjectType::Realtimclock.raw() == 51,
        ObjectType::Reserved52.raw() == 52,
        ObjectType::Reserved53.raw() == 53,
        ObjectType::LinStatistic.raw() == 54,
        ObjectType::J1708Message.raw() == 55,
        ObjectType::J1708VirtualMsg.raw() == 56,
        ObjectType::LinMessage2.raw() == 57,
        ObjectType::LinSndError2.raw() == 58,
        ObjectType::LinSynError2.raw() == 59,
        ObjectType::LinCrcError2.raw() == 60,
        ObjectType::LinRcvError2.raw() == 61,
        ObjectType::LinWakeup2.raw() == 62,
        ObjectType::LinSpikeEvent2.raw() == 63,
        ObjectType::LinLongDomSig.raw() == 64,
        ObjectType::AppText.raw() == 65,
        ObjectType::FrRcvmessageEx.raw() == 66,
        ObjectType::MostStatisticex.raw() == 67,
        ObjectType::MostTxlight.raw() == 68,
        ObjectType::MostAlloctab.raw() == 69,
        ObjectType::MostStress.raw() == 70,
        ObjectType::EthernetFrame.raw() == 71,
        ObjectType::SysVariable.raw() == 72,
        ObjectType::CanErrorExt.raw() == 73,
        ObjectType::CanDriverErrorExt.raw() == 74,
        ObjectType::LinLongDomSig2.raw() == 75,
        ObjectType::Most150Message.raw() == 76,
        ObjectType::Most150Pkt.raw() == 77,
        ObjectType::MostEthernetPkt.raw() == 78,
        ObjectType::Most150MessageFragment.raw() == 79,
        ObjectType::Most150PktFragment.raw() == 80,
        ObjectType::MostEthernetPktFragment.raw() == 81,
        ObjectType::MostSystemEvent.raw() == 82,
        ObjectType::Most150Alloctab.raw() == 83,
        ObjectType::Most50Message.raw() == 84,
        ObjectType::Most50Pkt.raw() == 85,
        ObjectType::CanMessage2.raw() == 86,
        ObjectType::LinUnexpectedWakeup.raw() == 87,
        ObjectType::LinShortOrSlowResponse.raw() == 88,
        ObjectType::LinDisturbanceEvent.raw() == 89,
        ObjectType::SerialEvent.raw() == 90,
        ObjectType::OverrunError.raw() == 91,
        ObjectType::EventComment.raw() == 92,
        ObjectType::WlanFrame.raw() == 93,
        ObjectType::WlanStatistic.raw() == 94,
        ObjectType::MostEcl.raw() == 95,
        ObjectType::GlobalMarker.raw() == 96,
        ObjectType::AfdxFrame.raw() == 97,
        ObjectType::AfdxStatistic.raw() == 98,
        ObjectType::KlineStatusevent.raw() == 99,
        ObjectType::CanFdMessage.raw() == 100,
        ObjectType::CanFdMessage64.raw() == 101,
        ObjectType::EthernetRxError.raw() == 102,
        ObjectType::EthernetStatus.raw() == 103,
        ObjectType::CanFdError64.raw() == 104,
        ObjectType::LinShortOrSlowResponse2.raw() == 105,
        ObjectType::AfdxStatus.raw() == 106,
        ObjectType::AfdxBusStatistic.raw() == 107,
        ObjectType::Reserved108.raw() == 108,
        ObjectType::AfdxErrorEvent.raw() == 109,
        ObjectType::A429Error.raw() == 110,
        ObjectType::A429Status.raw() == 111,
        ObjectType::A429BusStatistic.raw() == 112,
        ObjectType::A429Message.raw() == 113,
        ObjectType::EthernetStatistic.raw() == 114,
        ObjectType::RestorepointContainer.raw() == 115,
        ObjectType::Reserved116.raw() == 116,
        ObjectType::Reserved117.raw() == 117,
        ObjectType::TestStructure.raw() == 118,
        ObjectType::DiagRequestInterpretation.raw() == 119,
        ObjectType::EthernetFrameEx.raw() == 120,
        ObjectType::EthernetFrameForwarded.raw() == 121,
        ObjectType::EthernetErrorEx.raw() == 122,
        ObjectType::EthernetErrorForwarded.raw() == 123,
        ObjectType::FunctionBus.raw() == 124,
        ObjectType::DataLostBegin.raw() == 125,
        ObjectType::DataLostEnd.raw() == 126,
        ObjectType::WaterMarkEvent.raw() == 127,
        ObjectType::TriggerCondition.raw() == 128,
        ObjectType::CanSettingChanged.raw() == 129,
        ObjectType::DistributedObjectMember.raw() == 130,
        ObjectType::AttributeEvent.raw() == 131,
{
}

/// The types of system variables by their numbers.
pub proof fn law_variable_numbers()
    ensures
        SysVarDataType::Double.raw() == 1,
        SysVarDataType::Long.raw() == 2,
        SysVarDataType::String.raw() == 3,
        SysVarDataType::DoubleArray.raw() == 4,
        SysVarDataType::LongArray.raw() == 5,
        SysVarDataType::LongLong.raw() == 6,
        SysVarDataType::ByteArray.raw() == 7,
{
}

/// The types that are reserved.
pub proof fn law_reserved_types(t: ObjectType)
    ensures
        t.spec_is_reserved() <==> t.raw() == 26 || t.raw() == 27 || t.raw() == 28 || t.raw() == 52 || t.raw() == 53 || t.raw() == 108 || t.raw() == 116 || t.raw() == 117,
{
}

/// Behind an object of a type that is padded there are as many bytes as its size is over a
/// multiple of four; behind any other there are none.
pub proof fn law_padding(object_type: u32, object_size: u32)
    ensures
        LObj::padding_of(object_type, object_size) == if object_type == 6 || object_type == 7 || object_type == 8 || object_type == 9 || object_type == 10 || object_type == 32 || object_type == 33 || object_type == 65 || object_type == 69 || object_type == 71 || object_type == 102 || object_type == 72 || object_type == 76 || object_type == 77 || object_type == 78 || object_type == 79 || object_type == 80 || object_type == 81 || object_type == 83 || object_type == 84 || object_type == 85 || object_type == 90 || object_type == 92 || object_type == 93 || object_type == 96 || object_type == 97 {
            object_size % 4
        } else {
            0
        },
{
    ObjectType::law_raw_of_registered(object_type);
}

/// An object that was read is of the kind that the type number in its bytes stands for. One
/// whose fields are not decoded keeps the bytes behind its header.
pub proof fn law_kind_of_number(o: BlfObject, s: Seq<u8>, base: int)
    requires
        o.reads(s, base),
    ensures
        ({
            let t = s[12] + 256 * s[13] + 65536 * s[14] + 16777216 * s[15];
            let size = s[8] + 256 * s[9] + 65536 * s[10] + 16777216 * s[11];
            let body = s.subrange(0, size);
            match o {
                BlfObject::AppTrigger(x) => (t == 5) && x.reads(body),
                BlfObject::EnvironmentVariable(x) => (t == 6 || t == 7 || t == 8 || t == 9) && x.reads(body),
                BlfObject::RealtimeClock(x) => (t == 51) && x.reads(body),
                BlfObject::DriverOverrun(x) => (t == 91) && x.reads(body),
                BlfObject::EventComment(x) => (t == 92) && x.reads(body),
                BlfObject::GlobalMarker(x) => (t == 96) && x.reads(body),
                BlfObject::GpsEvent(x) => (t == 46) && x.reads(body),
                BlfObject::DataLostBegin(x) => (t == 125) && x.reads(body),
                BlfObject::DataLostEnd(x) => (t == 126) && x.reads(body),
                BlfObject::WaterMarkEvent(x) => (t == 127) && x.reads(body),
                BlfObject::TriggerCondition(x) => (t == 128) && x.reads(body),
                BlfObject::DistributedObjectMember(x) => (t == 130) && x.reads(body),
                BlfObject::AttributeEvent(x) => (t == 131) && x.reads(body),
                BlfObject::FunctionBus(x) => (t == 124) && x.reads(body),
                BlfObject::DiagRequestInterpretation(x) => (t == 119) && x.reads(body),
                BlfObject::EthernetFrame(x) => (t == 71) && x.reads(body),
                BlfObject::EthernetRxError(x) => (t == 102) && x.reads(body),
                BlfObject::EthernetStatus(x) => (t == 103) && x.reads(body),
                BlfObject::EthernetStatistic(x) => (t == 114) && x.reads(body),
                BlfObject::EthernetFrameEx(x) => (t == 120 || t == 121 || t == 122 || t == 123) && x.reads(body),
                BlfObject::LinMessage(x) => (t == 11) && x.reads(body),
                BlfObject::LinMessage2(x) => (t == 57) && x.reads(body),
                BlfObject::CanMessage(x) => (t == 1) && x.reads(body),
                BlfObject::CanMessage2(x) => (t == 86) && x.reads(body),
                BlfObject::CanError(x) => (t == 2) && x.reads(body),
                BlfObject::CanErrorExt(x) => (t == 73) && x.reads(body),
                BlfObject::CanOverload(x) => (t == 3) && x.reads(body),
                BlfObject::CanFdMessage(x) => (t == 100) && x.reads(body),
                BlfObject::CanFdMessage64(x) => (t == 101) && x.reads(body),
                BlfObject::CanFdError64(x) => (t == 104) && x.reads(body),
                BlfObject::CanStatistic(x) => (t == 4) && x.reads(body),
                BlfObject::CanDriverError(x) => (t == 31) && x.reads(body),
                BlfObject::CanDriverSync(x) => (t == 44) && x.reads(body),
                BlfObject::CanDriverErrorExt(x) => (t == 74) && x.reads(body),
                BlfObject::CanSettingChanged(x) => (t == 129) && x.reads(body),
                BlfObject::AppText(x) => (t == 65) && x.reads(body),
                BlfObject::SysVariable(x) => (t == 72) && x.reads(body),
                BlfObject::RestorePointContainer(x) => (t == 115) && x.reads(body),
                BlfObject::Raw { header, data } => t < 132 && header.reads(s) && data@ == s.subrange(
                    s[4] + 256 * s[5],
                    size,
                ),
                BlfObject::Unknown { header, data } => t >= 132 && header.reads(s) && data@
                    == s.subrange(s[4] + 256 * s[5], size),
            }
        }),
{
    reveal(BlfObject::reads);
    law_little_endian_32(s, 12);
    law_little_endian_32(s, 8);
    law_little_endian_16(s, 4);
    ObjectType::law_raw_of_registered(u32_at(s, 12));
}

/// The time between two points is the nanoseconds of the one less those of the other.
pub proof fn law_time_between(start: UnixTime, end: UnixTime)
    ensures
        ({
            let a = start.secs * 1_000_000_000 + start.nanos;
            let b = end.secs * 1_000_000_000 + end.nanos;
            match span_between(start, end) {
                Some((secs, nanos)) => {
                    &&& 0 <= secs
                    &&& 0 <= nanos < 1_000_000_000
                    &&& a + secs * 1_000_000_000 + nanos == b
                },
                None => b < a,
            }
        }),
{
}

} // verus!
