//! The registry of BLF object types.

use vstd::prelude::*;

verus! {

/// Type of a BLF object.
#[derive(Debug, Clone, Copy, PartialEq, Eq, Hash, Structural)]
pub enum ObjectType {
    Unknown,
    CanMessage,
    CanError,
    CanOverload,
    CanStatistic,
    AppTrigger,
    EnvInteger,
    EnvDouble,
    EnvString,
    EnvData,
    LogContainer,
    LinMessage,
    LinCrcError,
    LinDlcInfo,
    LinRcvError,
    LinSndError,
    LinSlvTimeout,
    LinSchedModch,
    LinSynError,
    LinBaudrate,
    LinSleep,
    LinWakeup,
    MostSpy,
    MostCtrl,
    MostLightlock,
    MostStatistic,
    Reserved26,
    Reserved27,
    Reserved28,
    FlexrayData,
    FlexraySync,
    CanDriverError,
    MostPkt,
    MostPkt2,
    MostHwmode,
    MostReg,
    MostGenreg,
    MostNetstate,
    MostDatalost,
    MostTrigger,
    FlexrayCycle,
    FlexrayMessage,
    LinChecksumInfo,
    LinSpikeEvent,
    CanDriverSync,
    FlexrayStatus,
    GpsEvent,
    FrError,
    FrStatus,
    FrStartcycle,
    FrRcvmessage,
    Realtimclock,
    Reserved52,
    Reserved53,
    LinStatistic,
    J1708Message,
    J1708VirtualMsg,
    LinMessage2,
    LinSndError2,
    LinSynError2,
    LinCrcError2,
    LinRcvError2,
    LinWakeup2,
    LinSpikeEvent2,
    LinLongDomSig,
    AppText,
    FrRcvmessageEx,
    MostStatisticex,
    MostTxlight,
    MostAlloctab,
    MostStress,
    EthernetFrame,
    SysVariable,
    CanErrorExt,
    CanDriverErrorExt,
    LinLongDomSig2,
    Most150Message,
    Most150Pkt,
    MostEthernetPkt,
    Most150MessageFragment,
    Most150PktFragment,
    MostEthernetPktFragment,
    MostSystemEvent,
    Most150Alloctab,
    Most50Message,
    Most50Pkt,
    CanMessage2,
    LinUnexpectedWakeup,
    LinShortOrSlowResponse,
    LinDisturbanceEvent,
    SerialEvent,
    OverrunError,
    EventComment,
    WlanFrame,
    WlanStatistic,
    MostEcl,
    GlobalMarker,
    AfdxFrame,
    AfdxStatistic,
    KlineStatusevent,
    CanFdMessage,
    CanFdMessage64,
    EthernetRxError,
    EthernetStatus,
    CanFdError64,
    LinShortOrSlowResponse2,
    AfdxStatus,
    AfdxBusStatistic,
    Reserved108,
    AfdxErrorEvent,
    A429Error,
    A429Status,
    A429BusStatistic,
    A429Message,
    EthernetStatistic,
    RestorepointContainer,
    Reserved116,
    Reserved117,
    TestStructure,
    DiagRequestInterpretation,
    EthernetFrameEx,
    EthernetFrameForwarded,
    EthernetErrorEx,
    EthernetErrorForwarded,
    FunctionBus,
    DataLostBegin,
    DataLostEnd,
    WaterMarkEvent,
    TriggerCondition,
    CanSettingChanged,
    DistributedObjectMember,
    AttributeEvent,
}

impl ObjectType {
    /// The number that stands for the type in a file.
    pub open spec fn raw(self) -> u32 {
        match self {
            ObjectType::Unknown => 0,
            ObjectType::CanMessage => 1,
            ObjectType::CanError => 2,
            ObjectType::CanOverload => 3,
            ObjectType::CanStatistic => 4,
            ObjectType::AppTrigger => 5,
            ObjectType::EnvInteger => 6,
            ObjectType::EnvDouble => 7,
            ObjectType::EnvString => 8,
            ObjectType::EnvData => 9,
            ObjectType::LogContainer => 10,
            ObjectType::LinMessage => 11,
            ObjectType::LinCrcError => 12,
            ObjectType::LinDlcInfo => 13,
            ObjectType::LinRcvError => 14,
            ObjectType::LinSndError => 15,
            ObjectType::LinSlvTimeout => 16,
            ObjectType::LinSchedModch => 17,
            ObjectType::LinSynError => 18,
            ObjectType::LinBaudrate => 19,
            ObjectType::LinSleep => 20,
            ObjectType::LinWakeup => 21,
            ObjectType::MostSpy => 22,
            ObjectType::MostCtrl => 23,
            ObjectType::MostLightlock => 24,
            ObjectType::MostStatistic => 25,
            ObjectType::Reserved26 => 26,
            ObjectType::Reserved27 => 27,
            ObjectType::Reserved28 => 28,
            ObjectType::FlexrayData => 29,
            ObjectType::FlexraySync => 30,
            ObjectType::CanDriverError => 31,
            ObjectType::MostPkt => 32,
            ObjectType::MostPkt2 => 33,
            ObjectType::MostHwmode => 34,
            ObjectType::MostReg => 35,
            ObjectType::MostGenreg => 36,
            ObjectType::MostNetstate => 37,
            ObjectType::MostDatalost => 38,
            ObjectType::MostTrigger => 39,
            ObjectType::FlexrayCycle => 40,
            ObjectType::FlexrayMessage => 41,
            ObjectType::LinChecksumInfo => 42,
            ObjectType::LinSpikeEvent => 43,
            ObjectType::CanDriverSync => 44,
            ObjectType::FlexrayStatus => 45,
            ObjectType::GpsEvent => 46,
            ObjectType::FrError => 47,
            ObjectType::FrStatus => 48,
            ObjectType::FrStartcycle => 49,
            ObjectType::FrRcvmessage => 50,
            ObjectType::Realtimclock => 51,
            ObjectType::Reserved52 => 52,
            ObjectType::Reserved53 => 53,
            ObjectType::LinStatistic => 54,
            ObjectType::J1708Message => 55,
            ObjectType::J1708VirtualMsg => 56,
            ObjectType::LinMessage2 => 57,
            ObjectType::LinSndError2 => 58,
            ObjectType::LinSynError2 => 59,
            ObjectType::LinCrcError2 => 60,
            ObjectType::LinRcvError2 => 61,
            ObjectType::LinWakeup2 => 62,
            ObjectType::LinSpikeEvent2 => 63,
            ObjectType::LinLongDomSig => 64,
            ObjectType::AppText => 65,
            ObjectType::FrRcvmessageEx => 66,
            ObjectType::MostStatisticex => 67,
            ObjectType::MostTxlight => 68,
            ObjectType::MostAlloctab => 69,
            ObjectType::MostStress => 70,
            ObjectType::EthernetFrame => 71,
            ObjectType::SysVariable => 72,
            ObjectType::CanErrorExt => 73,
            ObjectType::CanDriverErrorExt => 74,
            ObjectType::LinLongDomSig2 => 75,
            ObjectType::Most150Message => 76,
            ObjectType::Most150Pkt => 77,
            ObjectType::MostEthernetPkt => 78,
            ObjectType::Most150MessageFragment => 79,
            ObjectType::Most150PktFragment => 80,
            ObjectType::MostEthernetPktFragment => 81,
            ObjectType::MostSystemEvent => 82,
            ObjectType::Most150Alloctab => 83,
            ObjectType::Most50Message => 84,
            ObjectType::Most50Pkt => 85,
            ObjectType::CanMessage2 => 86,
            ObjectType::LinUnexpectedWakeup => 87,
            ObjectType::LinShortOrSlowResponse => 88,
            ObjectType::LinDisturbanceEvent => 89,
            ObjectType::SerialEvent => 90,
            ObjectType::OverrunError => 91,
            ObjectType::EventComment => 92,
            ObjectType::WlanFrame => 93,
            ObjectType::WlanStatistic => 94,
            ObjectType::MostEcl => 95,
            ObjectType::GlobalMarker => 96,
            ObjectType::AfdxFrame => 97,
            ObjectType::AfdxStatistic => 98,
            ObjectType::KlineStatusevent => 99,
            ObjectType::CanFdMessage => 100,
            ObjectType::CanFdMessage64 => 101,
            ObjectType::EthernetRxError => 102,
            ObjectType::EthernetStatus => 103,
            ObjectType::CanFdError64 => 104,
            ObjectType::LinShortOrSlowResponse2 => 105,
            ObjectType::AfdxStatus => 106,
            ObjectType::AfdxBusStatistic => 107,
            ObjectType::Reserved108 => 108,
            ObjectType::AfdxErrorEvent => 109,
            ObjectType::A429Error => 110,
            ObjectType::A429Status => 111,
            ObjectType::A429BusStatistic => 112,
            ObjectType::A429Message => 113,
            ObjectType::EthernetStatistic => 114,
            ObjectType::RestorepointContainer => 115,
            ObjectType::Reserved116 => 116,
            ObjectType::Reserved117 => 117,
            ObjectType::TestStructure => 118,
            ObjectType::DiagRequestInterpretation => 119,
            ObjectType::EthernetFrameEx => 120,
            ObjectType::EthernetFrameForwarded => 121,
            ObjectType::EthernetErrorEx => 122,
            ObjectType::EthernetErrorForwarded => 123,
            ObjectType::FunctionBus => 124,
            ObjectType::DataLostBegin => 125,
            ObjectType::DataLostEnd => 126,
            ObjectType::WaterMarkEvent => 127,
            ObjectType::TriggerCondition => 128,
            ObjectType::CanSettingChanged => 129,
            ObjectType::DistributedObjectMember => 130,
            ObjectType::AttributeEvent => 131,
        }
    }

    /// The type with a given number.
    pub open spec fn of_raw(raw: u32) -> Option<ObjectType> {
        match raw {
            0 => Some(ObjectType::Unknown),
            1 => Some(ObjectType::CanMessage),
            2 => Some(ObjectType::CanError),
            3 => Some(ObjectType::CanOverload),
            4 => Some(ObjectType::CanStatistic),
            5 => Some(ObjectType::AppTrigger),
            6 => Some(ObjectType::EnvInteger),
            7 => Some(ObjectType::EnvDouble),
            8 => Some(ObjectType::EnvString),
            9 => Some(ObjectType::EnvData),
            10 => Some(ObjectType::LogContainer),
            11 => Some(ObjectType::LinMessage),
            12 => Some(ObjectType::LinCrcError),
            13 => Some(ObjectType::LinDlcInfo),
            14 => Some(ObjectType::LinRcvError),
            15 => Some(ObjectType::LinSndError),
            16 => Some(ObjectType::LinSlvTimeout),
            17 => Some(ObjectType::LinSchedModch),
            18 => Some(ObjectType::LinSynError),
            19 => Some(ObjectType::LinBaudrate),
            20 => Some(ObjectType::LinSleep),
            21 => Some(ObjectType::LinWakeup),
            22 => Some(ObjectType::MostSpy),
            23 => Some(ObjectType::MostCtrl),
            24 => Some(ObjectType::MostLightlock),
            25 => Some(ObjectType::MostStatistic),
            26 => Some(ObjectType::Reserved26),
            27 => Some(ObjectType::Reserved27),
            28 => Some(ObjectType::Reserved28),
            29 => Some(ObjectType::FlexrayData),
            30 => Some(ObjectType::FlexraySync),
            31 => Some(ObjectType::CanDriverError),
            32 => Some(ObjectType::MostPkt),
            33 => Some(ObjectType::MostPkt2),
            34 => Some(ObjectType::MostHwmode),
            35 => Some(ObjectType::MostReg),
            36 => Some(ObjectType::MostGenreg),
            37 => Some(ObjectType::MostNetstate),
            38 => Some(ObjectType::MostDatalost),
            39 => Some(ObjectType::MostTrigger),
            40 => Some(ObjectType::FlexrayCycle),
            41 => Some(ObjectType::FlexrayMessage),
            42 => Some(ObjectType::LinChecksumInfo),
            43 => Some(ObjectType::LinSpikeEvent),
            44 => Some(ObjectType::CanDriverSync),
            45 => Some(ObjectType::FlexrayStatus),
            46 => Some(ObjectType::GpsEvent),
            47 => Some(ObjectType::FrError),
            48 => Some(ObjectType::FrStatus),
            49 => Some(ObjectType::FrStartcycle),
            50 => Some(ObjectType::FrRcvmessage),
            51 => Some(ObjectType::Realtimclock),
            52 => Some(ObjectType::Reserved52),
            53 => Some(ObjectType::Reserved53),
            54 => Some(ObjectType::LinStatistic),
            55 => Some(ObjectType::J1708Message),
            56 => Some(ObjectType::J1708VirtualMsg),
            57 => Some(ObjectType::LinMessage2),
            58 => Some(ObjectType::LinSndError2),
            59 => Some(ObjectType::LinSynError2),
            60 => Some(ObjectType::LinCrcError2),
            61 => Some(ObjectType::LinRcvError2),
            62 => Some(ObjectType::LinWakeup2),
            63 => Some(ObjectType::LinSpikeEvent2),
            64 => Some(ObjectType::LinLongDomSig),
            65 => Some(ObjectType::AppText),
            66 => Some(ObjectType::FrRcvmessageEx),
            67 => Some(ObjectType::MostStatisticex),
            68 => Some(ObjectType::MostTxlight),
            69 => Some(ObjectType::MostAlloctab),
            70 => Some(ObjectType::MostStress),
            71 => Some(ObjectType::EthernetFrame),
            72 => Some(ObjectType::SysVariable),
            73 => Some(ObjectType::CanErrorExt),
            74 => Some(ObjectType::CanDriverErrorExt),
            75 => Some(ObjectType::LinLongDomSig2),
            76 => Some(ObjectType::Most150Message),
            77 => Some(ObjectType::Most150Pkt),
            78 => Some(ObjectType::MostEthernetPkt),
            79 => Some(ObjectType::Most150MessageFragment),
            80 => Some(ObjectType::Most150PktFragment),
            81 => Some(ObjectType::MostEthernetPktFragment),
            82 => Some(ObjectType::MostSystemEvent),
            83 => Some(ObjectType::Most150Alloctab),
            84 => Some(ObjectType::Most50Message),
            85 => Some(ObjectType::Most50Pkt),
            86 => Some(ObjectType::CanMessage2),
            87 => Some(ObjectType::LinUnexpectedWakeup),
            88 => Some(ObjectType::LinShortOrSlowResponse),
            89 => Some(ObjectType::LinDisturbanceEvent),
            90 => Some(ObjectType::SerialEvent),
            91 => Some(ObjectType::OverrunError),
            92 => Some(ObjectType::EventComment),
            93 => Some(ObjectType::WlanFrame),
            94 => Some(ObjectType::WlanStatistic),
            95 => Some(ObjectType::MostEcl),
            96 => Some(ObjectType::GlobalMarker),
            97 => Some(ObjectType::AfdxFrame),
            98 => Some(ObjectType::AfdxStatistic),
            99 => Some(ObjectType::KlineStatusevent),
            100 => Some(ObjectType::CanFdMessage),
            101 => Some(ObjectType::CanFdMessage64),
            102 => Some(ObjectType::EthernetRxError),
            103 => Some(ObjectType::EthernetStatus),
            104 => Some(ObjectType::CanFdError64),
            105 => Some(ObjectType::LinShortOrSlowResponse2),
            106 => Some(ObjectType::AfdxStatus),
            107 => Some(ObjectType::AfdxBusStatistic),
            108 => Some(ObjectType::Reserved108),
            109 => Some(ObjectType::AfdxErrorEvent),
            110 => Some(ObjectType::A429Error),
            111 => Some(ObjectType::A429Status),
            112 => Some(ObjectType::A429BusStatistic),
            113 => Some(ObjectType::A429Message),
            114 => Some(ObjectType::EthernetStatistic),
            115 => Some(ObjectType::RestorepointContainer),
            116 => Some(ObjectType::Reserved116),
            117 => Some(ObjectType::Reserved117),
            118 => Some(ObjectType::TestStructure),
            119 => Some(ObjectType::DiagRequestInterpretation),
            120 => Some(ObjectType::EthernetFrameEx),
            121 => Some(ObjectType::EthernetFrameForwarded),
            122 => Some(ObjectType::EthernetErrorEx),
            123 => Some(ObjectType::EthernetErrorForwarded),
            124 => Some(ObjectType::FunctionBus),
            125 => Some(ObjectType::DataLostBegin),
            126 => Some(ObjectType::DataLostEnd),
            127 => Some(ObjectType::WaterMarkEvent),
            128 => Some(ObjectType::TriggerCondition),
            129 => Some(ObjectType::CanSettingChanged),
            130 => Some(ObjectType::DistributedObjectMember),
            131 => Some(ObjectType::AttributeEvent),
            _ => None,
        }
    }

    /// A type's number belongs to that type.
    pub proof fn law_of_raw_of_type(t: ObjectType)
        ensures
            ObjectType::of_raw(t.raw()) == Some(t),
            t.raw() <= 131,
    {
    }

    /// The registered numbers are those up to 131, and each is the number of its type.
    pub proof fn law_raw_of_registered(raw: u32)
        ensures
            ObjectType::of_raw(raw) is Some <==> raw <= 131,
            ObjectType::of_raw(raw) matches Some(t) ==> t.raw() == raw,
    {
    }

    /// Every object type of the supported BLF API revision, by ascending number.
    pub fn registered() -> (r: Vec<ObjectType>)
        ensures
            r.len() == 132,
            forall|i: int| 0 <= i < 132 ==> Some(#[trigger] r@[i]) == ObjectType::of_raw(i as u32),
    {
        let mut r: Vec<ObjectType> = Vec::new();
        let mut raw: u32 = 0;
        while raw <= 131
            invariant
                raw <= 132,
                r.len() == raw,
                forall|i: int|
                    0 <= i < raw ==> Some(#[trigger] r@[i]) == ObjectType::of_raw(i as u32),
            decreases 132 - raw,
        {
            proof {
                ObjectType::law_raw_of_registered(raw);
            }
            if let Some(t) = ObjectType::from_raw(raw) {
                r.push(t);
            }
            raw += 1;
        }
        r
    }

    pub open spec fn spec_is_reserved(self) -> bool {
        self is Reserved26 || self is Reserved27 || self is Reserved28 || self is Reserved52
            || self is Reserved53 || self is Reserved108 || self is Reserved116
            || self is Reserved117
    }

    pub fn is_reserved(self) -> (r: bool)
        ensures
            r == self.spec_is_reserved(),
    {
        matches!(
            self,
            ObjectType::Reserved26
                | ObjectType::Reserved27
                | ObjectType::Reserved28
                | ObjectType::Reserved52
                | ObjectType::Reserved53
                | ObjectType::Reserved108
                | ObjectType::Reserved116
                | ObjectType::Reserved117
        )
    }

    /// Whether objects of the type are followed by padding bytes.
    pub open spec fn spec_is_padded(self) -> bool {
        match self {
            ObjectType::EnvInteger
            | ObjectType::EnvDouble
            | ObjectType::EnvString
            | ObjectType::EnvData
            | ObjectType::LogContainer
            | ObjectType::MostPkt
            | ObjectType::MostPkt2
            | ObjectType::AppText
            | ObjectType::MostAlloctab
            | ObjectType::EthernetFrame
            | ObjectType::EthernetRxError
            | ObjectType::SysVariable
            | ObjectType::Most150Message
            | ObjectType::Most150Pkt
            | ObjectType::MostEthernetPkt
            | ObjectType::Most150MessageFragment
            | ObjectType::Most150PktFragment
            | ObjectType::MostEthernetPktFragment
            | ObjectType::Most150Alloctab
            | ObjectType::Most50Message
            | ObjectType::Most50Pkt
            | ObjectType::SerialEvent
            | ObjectType::EventComment
            | ObjectType::WlanFrame
            | ObjectType::GlobalMarker
            | ObjectType::AfdxFrame => true,
            _ => false,
        }
    }

    pub(crate) fn is_padded(self) -> (r: bool)
        ensures
            r == self.spec_is_padded(),
    {
        match self {
            ObjectType::EnvInteger
            | ObjectType::EnvDouble
            | ObjectType::EnvString
            | ObjectType::EnvData
            | ObjectType::LogContainer
            | ObjectType::MostPkt
            | ObjectType::MostPkt2
            | ObjectType::AppText
            | ObjectType::MostAlloctab
            | ObjectType::EthernetFrame
            | ObjectType::EthernetRxError
            | ObjectType::SysVariable
            | ObjectType::Most150Message
            | ObjectType::Most150Pkt
            | ObjectType::MostEthernetPkt
            | ObjectType::Most150MessageFragment
            | ObjectType::Most150PktFragment
            | ObjectType::MostEthernetPktFragment
            | ObjectType::Most150Alloctab
            | ObjectType::Most50Message
            | ObjectType::Most50Pkt
            | ObjectType::SerialEvent
            | ObjectType::EventComment
            | ObjectType::WlanFrame
            | ObjectType::GlobalMarker
            | ObjectType::AfdxFrame => true,
            _ => false,
        }
    }

    pub fn to_raw(self) -> (r: u32)
        ensures
            r == self.raw(),
    {
        match self {
            ObjectType::Unknown => 0,
            ObjectType::CanMessage => 1,
            ObjectType::CanError => 2,
            ObjectType::CanOverload => 3,
            ObjectType::CanStatistic => 4,
            ObjectType::AppTrigger => 5,
            ObjectType::EnvInteger => 6,
            ObjectType::EnvDouble => 7,
            ObjectType::EnvString => 8,
            ObjectType::EnvData => 9,
            ObjectType::LogContainer => 10,
            ObjectType::LinMessage => 11,
            ObjectType::LinCrcError => 12,
            ObjectType::LinDlcInfo => 13,
            ObjectType::LinRcvError => 14,
            ObjectType::LinSndError => 15,
            ObjectType::LinSlvTimeout => 16,
            ObjectType::LinSchedModch => 17,
            ObjectType::LinSynError => 18,
            ObjectType::LinBaudrate => 19,
            ObjectType::LinSleep => 20,
            ObjectType::LinWakeup => 21,
            ObjectType::MostSpy => 22,
            ObjectType::MostCtrl => 23,
            ObjectType::MostLightlock => 24,
            ObjectType::MostStatistic => 25,
            ObjectType::Reserved26 => 26,
            ObjectType::Reserved27 => 27,
            ObjectType::Reserved28 => 28,
            ObjectType::FlexrayData => 29,
            ObjectType::FlexraySync => 30,
            ObjectType::CanDriverError => 31,
            ObjectType::MostPkt => 32,
            ObjectType::MostPkt2 => 33,
            ObjectType::MostHwmode => 34,
            ObjectType::MostReg => 35,
            ObjectType::MostGenreg => 36,
            ObjectType::MostNetstate => 37,
            ObjectType::MostDatalost => 38,
            ObjectType::MostTrigger => 39,
            ObjectType::FlexrayCycle => 40,
            ObjectType::FlexrayMessage => 41,
            ObjectType::LinChecksumInfo => 42,
            ObjectType::LinSpikeEvent => 43,
            ObjectType::CanDriverSync => 44,
            ObjectType::FlexrayStatus => 45,
            ObjectType::GpsEvent => 46,
            ObjectType::FrError => 47,
            ObjectType::FrStatus => 48,
            ObjectType::FrStartcycle => 49,
            ObjectType::FrRcvmessage => 50,
            ObjectType::Realtimclock => 51,
            ObjectType::Reserved52 => 52,
            ObjectType::Reserved53 => 53,
            ObjectType::LinStatistic => 54,
            ObjectType::J1708Message => 55,
            ObjectType::J1708VirtualMsg => 56,
            ObjectType::LinMessage2 => 57,
            ObjectType::LinSndError2 => 58,
            ObjectType::LinSynError2 => 59,
            ObjectType::LinCrcError2 => 60,
            ObjectType::LinRcvError2 => 61,
            ObjectType::LinWakeup2 => 62,
            ObjectType::LinSpikeEvent2 => 63,
            ObjectType::LinLongDomSig => 64,
            ObjectType::AppText => 65,
            ObjectType::FrRcvmessageEx => 66,
            ObjectType::MostStatisticex => 67,
            ObjectType::MostTxlight => 68,
            ObjectType::MostAlloctab => 69,
            ObjectType::MostStress => 70,
            ObjectType::EthernetFrame => 71,
            ObjectType::SysVariable => 72,
            ObjectType::CanErrorExt => 73,
            ObjectType::CanDriverErrorExt => 74,
            ObjectType::LinLongDomSig2 => 75,
            ObjectType::Most150Message => 76,
            ObjectType::Most150Pkt => 77,
            ObjectType::MostEthernetPkt => 78,
            ObjectType::Most150MessageFragment => 79,
            ObjectType::Most150PktFragment => 80,
            ObjectType::MostEthernetPktFragment => 81,
            ObjectType::MostSystemEvent => 82,
            ObjectType::Most150Alloctab => 83,
            ObjectType::Most50Message => 84,
            ObjectType::Most50Pkt => 85,
            ObjectType::CanMessage2 => 86,
            ObjectType::LinUnexpectedWakeup => 87,
            ObjectType::LinShortOrSlowResponse => 88,
            ObjectType::LinDisturbanceEvent => 89,
            ObjectType::SerialEvent => 90,
            ObjectType::OverrunError => 91,
            ObjectType::EventComment => 92,
            ObjectType::WlanFrame => 93,
            ObjectType::WlanStatistic => 94,
            ObjectType::MostEcl => 95,
            ObjectType::GlobalMarker => 96,
            ObjectType::AfdxFrame => 97,
            ObjectType::AfdxStatistic => 98,
            ObjectType::KlineStatusevent => 99,
            ObjectType::CanFdMessage => 100,
            ObjectType::CanFdMessage64 => 101,
            ObjectType::EthernetRxError => 102,
            ObjectType::EthernetStatus => 103,
            ObjectType::CanFdError64 => 104,
            ObjectType::LinShortOrSlowResponse2 => 105,
            ObjectType::AfdxStatus => 106,
            ObjectType::AfdxBusStatistic => 107,
            ObjectType::Reserved108 => 108,
            ObjectType::AfdxErrorEvent => 109,
            ObjectType::A429Error => 110,
            ObjectType::A429Status => 111,
            ObjectType::A429BusStatistic => 112,
            ObjectType::A429Message => 113,
            ObjectType::EthernetStatistic => 114,
            ObjectType::RestorepointContainer => 115,
            ObjectType::Reserved116 => 116,
            ObjectType::Reserved117 => 117,
            ObjectType::TestStructure => 118,
            ObjectType::DiagRequestInterpretation => 119,
            ObjectType::EthernetFrameEx => 120,
            ObjectType::EthernetFrameForwarded => 121,
            ObjectType::EthernetErrorEx => 122,
            ObjectType::EthernetErrorForwarded => 123,
            ObjectType::FunctionBus => 124,
            ObjectType::DataLostBegin => 125,
            ObjectType::DataLostEnd => 126,
            ObjectType::WaterMarkEvent => 127,
            ObjectType::TriggerCondition => 128,
            ObjectType::CanSettingChanged => 129,
            ObjectType::DistributedObjectMember => 130,
            ObjectType::AttributeEvent => 131,
        }
    }

    pub fn from_raw(raw: u32) -> (r: Option<Self>)
        ensures
            r == ObjectType::of_raw(raw),
    {
        Some(
            match raw {
                0 => ObjectType::Unknown,
                1 => ObjectType::CanMessage,
                2 => ObjectType::CanError,
                3 => ObjectType::CanOverload,
                4 => ObjectType::CanStatistic,
                5 => ObjectType::AppTrigger,
                6 => ObjectType::EnvInteger,
                7 => ObjectType::EnvDouble,
                8 => ObjectType::EnvString,
                9 => ObjectType::EnvData,
                10 => ObjectType::LogContainer,
                11 => ObjectType::LinMessage,
                12 => ObjectType::LinCrcError,
                13 => ObjectType::LinDlcInfo,
                14 => ObjectType::LinRcvError,
                15 => ObjectType::LinSndError,
                16 => ObjectType::LinSlvTimeout,
                17 => ObjectType::LinSchedModch,
                18 => ObjectType::LinSynError,
                19 => ObjectType::LinBaudrate,
                20 => ObjectType::LinSleep,
                21 => ObjectType::LinWakeup,
                22 => ObjectType::MostSpy,
                23 => ObjectType::MostCtrl,
                24 => ObjectType::MostLightlock,
                25 => ObjectType::MostStatistic,
                26 => ObjectType::Reserved26,
                27 => ObjectType::Reserved27,
                28 => ObjectType::Reserved28,
                29 => ObjectType::FlexrayData,
                30 => ObjectType::FlexraySync,
                31 => ObjectType::CanDriverError,
                32 => ObjectType::MostPkt,
                33 => ObjectType::MostPkt2,
                34 => ObjectType::MostHwmode,
                35 => ObjectType::MostReg,
                36 => ObjectType::MostGenreg,
                37 => ObjectType::MostNetstate,
                38 => ObjectType::MostDatalost,
                39 => ObjectType::MostTrigger,
                40 => ObjectType::FlexrayCycle,
                41 => ObjectType::FlexrayMessage,
                42 => ObjectType::LinChecksumInfo,
                43 => ObjectType::LinSpikeEvent,
                44 => ObjectType::CanDriverSync,
                45 => ObjectType::FlexrayStatus,
                46 => ObjectType::GpsEvent,
                47 => ObjectType::FrError,
                48 => ObjectType::FrStatus,
                49 => ObjectType::FrStartcycle,
                50 => ObjectType::FrRcvmessage,
                51 => ObjectType::Realtimclock,
                52 => ObjectType::Reserved52,
                53 => ObjectType::Reserved53,
                54 => ObjectType::LinStatistic,
                55 => ObjectType::J1708Message,
                56 => ObjectType::J1708VirtualMsg,
                57 => ObjectType::LinMessage2,
                58 => ObjectType::LinSndError2,
                59 => ObjectType::LinSynError2,
                60 => ObjectType::LinCrcError2,
                61 => ObjectType::LinRcvError2,
                62 => ObjectType::LinWakeup2,
                63 => ObjectType::LinSpikeEvent2,
                64 => ObjectType::LinLongDomSig,
                65 => ObjectType::AppText,
                66 => ObjectType::FrRcvmessageEx,
                67 => ObjectType::MostStatisticex,
                68 => ObjectType::MostTxlight,
                69 => ObjectType::MostAlloctab,
                70 => ObjectType::MostStress,
                71 => ObjectType::EthernetFrame,
                72 => ObjectType::SysVariable,
                73 => ObjectType::CanErrorExt,
                74 => ObjectType::CanDriverErrorExt,
                75 => ObjectType::LinLongDomSig2,
                76 => ObjectType::Most150Message,
                77 => ObjectType::Most150Pkt,
                78 => ObjectType::MostEthernetPkt,
                79 => ObjectType::Most150MessageFragment,
                80 => ObjectType::Most150PktFragment,
                81 => ObjectType::MostEthernetPktFragment,
                82 => ObjectType::MostSystemEvent,
                83 => ObjectType::Most150Alloctab,
                84 => ObjectType::Most50Message,
                85 => ObjectType::Most50Pkt,
                86 => ObjectType::CanMessage2,
                87 => ObjectType::LinUnexpectedWakeup,
                88 => ObjectType::LinShortOrSlowResponse,
                89 => ObjectType::LinDisturbanceEvent,
                90 => ObjectType::SerialEvent,
                91 => ObjectType::OverrunError,
                92 => ObjectType::EventComment,
                93 => ObjectType::WlanFrame,
                94 => ObjectType::WlanStatistic,
                95 => ObjectType::MostEcl,
                96 => ObjectType::GlobalMarker,
                97 => ObjectType::AfdxFrame,
                98 => ObjectType::AfdxStatistic,
                99 => ObjectType::KlineStatusevent,
                100 => ObjectType::CanFdMessage,
                101 => ObjectType::CanFdMessage64,
                102 => ObjectType::EthernetRxError,
                103 => ObjectType::EthernetStatus,
                104 => ObjectType::CanFdError64,
                105 => ObjectType::LinShortOrSlowResponse2,
                106 => ObjectType::AfdxStatus,
                107 => ObjectType::AfdxBusStatistic,
                108 => ObjectType::Reserved108,
                109 => ObjectType::AfdxErrorEvent,
                110 => ObjectType::A429Error,
                111 => ObjectType::A429Status,
                112 => ObjectType::A429BusStatistic,
                113 => ObjectType::A429Message,
                114 => ObjectType::EthernetStatistic,
                115 => ObjectType::RestorepointContainer,
                116 => ObjectType::Reserved116,
                117 => ObjectType::Reserved117,
                118 => ObjectType::TestStructure,
                119 => ObjectType::DiagRequestInterpretation,
                120 => ObjectType::EthernetFrameEx,
                121 => ObjectType::EthernetFrameForwarded,
                122 => ObjectType::EthernetErrorEx,
                123 => ObjectType::EthernetErrorForwarded,
                124 => ObjectType::FunctionBus,
                125 => ObjectType::DataLostBegin,
                126 => ObjectType::DataLostEnd,
                127 => ObjectType::WaterMarkEvent,
                128 => ObjectType::TriggerCondition,
                129 => ObjectType::CanSettingChanged,
                130 => ObjectType::DistributedObjectMember,
                131 => ObjectType::AttributeEvent,
                _ => return None,
            },
        )
    }
}

/// Data type of a system variable.
#[derive(Debug, Clone, Copy, PartialEq, Eq, Hash, Structural)]
pub enum SysVarDataType {
    Double,
    Long,
    String,
    DoubleArray,
    LongArray,
    LongLong,
    ByteArray,
}

impl SysVarDataType {
    /// The number that stands for the data type in a file.
    pub open spec fn raw(self) -> u32 {
        match self {
            SysVarDataType::Double => 1,
            SysVarDataType::Long => 2,
            SysVarDataType::String => 3,
            SysVarDataType::DoubleArray => 4,
            SysVarDataType::LongArray => 5,
            SysVarDataType::LongLong => 6,
            SysVarDataType::ByteArray => 7,
        }
    }

    /// The data type with a given number.
    pub open spec fn of_raw(raw: u32) -> Option<SysVarDataType> {
        match raw {
            1 => Some(SysVarDataType::Double),
            2 => Some(SysVarDataType::Long),
            3 => Some(SysVarDataType::String),
            4 => Some(SysVarDataType::DoubleArray),
            5 => Some(SysVarDataType::LongArray),
            6 => Some(SysVarDataType::LongLong),
            7 => Some(SysVarDataType::ByteArray),
            _ => None,
        }
    }

    /// A data type's number belongs to that data type, and no other number belongs to one.
    pub proof fn law_raw(t: SysVarDataType, raw: u32)
        ensures
            SysVarDataType::of_raw(t.raw()) == Some(t),
            SysVarDataType::of_raw(raw) is Some <==> 1 <= raw <= 7,
            SysVarDataType::of_raw(raw) matches Some(u) ==> u.raw() == raw,
    {
    }

    pub fn to_raw(self) -> (r: u32)
        ensures
            r == self.raw(),
    {
        match self {
            SysVarDataType::Double => 1,
            SysVarDataType::Long => 2,
            SysVarDataType::String => 3,
            SysVarDataType::DoubleArray => 4,
            SysVarDataType::LongArray => 5,
            SysVarDataType::LongLong => 6,
            SysVarDataType::ByteArray => 7,
        }
    }

    pub fn from_raw(raw: u32) -> (r: Option<Self>)
        ensures
            r == SysVarDataType::of_raw(raw),
    {
        Some(
            match raw {
                1 => SysVarDataType::Double,
                2 => SysVarDataType::Long,
                3 => SysVarDataType::String,
                4 => SysVarDataType::DoubleArray,
                5 => SysVarDataType::LongArray,
                6 => SysVarDataType::LongLong,
                7 => SysVarDataType::ByteArray,
                _ => return None,
            },
        )
    }
}

} // verus!
