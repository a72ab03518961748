//! Objects of every kind.

use crate::blf::app::{AppTextManaged, RestorePointContainerManaged, SysVariableManaged};
use crate::blf::can::{
    CanDriverError, CanDriverErrorExt, CanDriverSync, CanError, CanFdMessage, CanMessage,
    CanMessage2, CanOverload, CanStatistic,
};
use crate::blf::can_ext::{CanErrorExt, CanFdError64, CanFdManaged, CanSettingChanged};
use crate::blf::ethernet::{
    EthernetFrame, EthernetFrameEx, EthernetRxError, EthernetStatistic, EthernetStatus,
};
use crate::blf::general::{
    AppTrigger, AttributeEvent, DataLostBegin, DataLostEnd, DiagRequestInterpretation,
    DistributedObjectMember, DriverOverrun, EnvironmentVariable, EventComment, FunctionBus,
    GlobalMarker, GpsEvent, RealtimeClock, TriggerCondition, WaterMarkEvent,
};
use crate::blf::lin::{LinMessage, LinMessage2};
use crate::blf::bytes::{
    lemma_field_bytes, lemma_starts_with_self, low16, put_bytes, read_bytes, read_u32, u16_at,
    u32_at,
    offsets_fit,
};
use crate::blf::error::{parse_err, Error, Failure, Result};
use crate::blf::flags::{CanFlags, ObjectFlags};
use crate::blf::header::{LObj, LOBJ_SIZE};
use crate::blf::object_type::ObjectType;
use crate::text::{dec, push_dec};
use vstd::prelude::*;

verus! {

/// An object of a BLF file.
#[derive(Debug, Clone, PartialEq, Eq)]
pub enum BlfObject {
    AppTrigger(AppTrigger),
    EnvironmentVariable(EnvironmentVariable),
    RealtimeClock(RealtimeClock),
    DriverOverrun(DriverOverrun),
    EventComment(EventComment),
    GlobalMarker(GlobalMarker),
    GpsEvent(GpsEvent),
    DataLostBegin(DataLostBegin),
    DataLostEnd(DataLostEnd),
    WaterMarkEvent(WaterMarkEvent),
    TriggerCondition(TriggerCondition),
    DistributedObjectMember(DistributedObjectMember),
    AttributeEvent(AttributeEvent),
    FunctionBus(FunctionBus),
    DiagRequestInterpretation(DiagRequestInterpretation),
    EthernetFrame(EthernetFrame),
    EthernetRxError(EthernetRxError),
    EthernetStatus(EthernetStatus),
    EthernetStatistic(EthernetStatistic),
    EthernetFrameEx(EthernetFrameEx),
    LinMessage(LinMessage),
    LinMessage2(LinMessage2),
    CanMessage(CanMessage),
    CanMessage2(CanMessage2),
    CanError(CanError),
    CanErrorExt(CanErrorExt),
    CanOverload(CanOverload),
    CanFdMessage(CanFdMessage),
    CanFdMessage64(CanFdManaged),
    CanFdError64(CanFdError64),
    CanStatistic(CanStatistic),
    CanDriverError(CanDriverError),
    CanDriverSync(CanDriverSync),
    CanDriverErrorExt(CanDriverErrorExt),
    CanSettingChanged(CanSettingChanged),
    AppText(AppTextManaged),
    SysVariable(SysVariableManaged),
    RestorePointContainer(RestorePointContainerManaged),
    /// A registered BLF object whose family-specific fields are not decoded.
    Raw { header: LObj, data: Vec<u8> },
    /// An object type not present in this version's BLF object registry.
    Unknown { header: LObj, data: Vec<u8> },
}

/// How deeply an object was decoded by this crate.
#[derive(Debug, Clone, Copy, PartialEq, Eq, Structural)]
pub enum ObjectRepresentation {
    Typed,
    RegisteredRaw,
    Unknown,
}

impl From<AppTrigger> for BlfObject {
    fn from(value: AppTrigger) -> (r: Self) {
        BlfObject::AppTrigger(value)
    }
}

impl vstd::std_specs::convert::FromSpecImpl<AppTrigger> for BlfObject {
    open spec fn obeys_from_spec() -> bool {
        true
    }

    open spec fn from_spec(value: AppTrigger) -> Self {
        BlfObject::AppTrigger(value)
    }
}

impl From<EnvironmentVariable> for BlfObject {
    fn from(value: EnvironmentVariable) -> (r: Self) {
        BlfObject::EnvironmentVariable(value)
    }
}

impl vstd::std_specs::convert::FromSpecImpl<EnvironmentVariable> for BlfObject {
    open spec fn obeys_from_spec() -> bool {
        true
    }

    open spec fn from_spec(value: EnvironmentVariable) -> Self {
        BlfObject::EnvironmentVariable(value)
    }
}

impl From<RealtimeClock> for BlfObject {
    fn from(value: RealtimeClock) -> (r: Self) {
        BlfObject::RealtimeClock(value)
    }
}

impl vstd::std_specs::convert::FromSpecImpl<RealtimeClock> for BlfObject {
    open spec fn obeys_from_spec() -> bool {
        true
    }

    open spec fn from_spec(value: RealtimeClock) -> Self {
        BlfObject::RealtimeClock(value)
    }
}

impl From<DriverOverrun> for BlfObject {
    fn from(value: DriverOverrun) -> (r: Self) {
        BlfObject::DriverOverrun(value)
    }
}

impl vstd::std_specs::convert::FromSpecImpl<DriverOverrun> for BlfObject {
    open spec fn obeys_from_spec() -> bool {
        true
    }

    open spec fn from_spec(value: DriverOverrun) -> Self {
        BlfObject::DriverOverrun(value)
    }
}

impl From<EventComment> for BlfObject {
    fn from(value: EventComment) -> (r: Self) {
        BlfObject::EventComment(value)
    }
}

impl vstd::std_specs::convert::FromSpecImpl<EventComment> for BlfObject {
    open spec fn obeys_from_spec() -> bool {
        true
    }

    open spec fn from_spec(value: EventComment) -> Self {
        BlfObject::EventComment(value)
    }
}

impl From<GlobalMarker> for BlfObject {
    fn from(value: GlobalMarker) -> (r: Self) {
        BlfObject::GlobalMarker(value)
    }
}

impl vstd::std_specs::convert::FromSpecImpl<GlobalMarker> for BlfObject {
    open spec fn obeys_from_spec() -> bool {
        true
    }

    open spec fn from_spec(value: GlobalMarker) -> Self {
        BlfObject::GlobalMarker(value)
    }
}

impl From<GpsEvent> for BlfObject {
    fn from(value: GpsEvent) -> (r: Self) {
        BlfObject::GpsEvent(value)
    }
}

impl vstd::std_specs::convert::FromSpecImpl<GpsEvent> for BlfObject {
    open spec fn obeys_from_spec() -> bool {
        true
    }

    open spec fn from_spec(value: GpsEvent) -> Self {
        BlfObject::GpsEvent(value)
    }
}

impl From<DataLostBegin> for BlfObject {
    fn from(value: DataLostBegin) -> (r: Self) {
        BlfObject::DataLostBegin(value)
    }
}

impl vstd::std_specs::convert::FromSpecImpl<DataLostBegin> for BlfObject {
    open spec fn obeys_from_spec() -> bool {
        true
    }

    open spec fn from_spec(value: DataLostBegin) -> Self {
        BlfObject::DataLostBegin(value)
    }
}

impl From<DataLostEnd> for BlfObject {
    fn from(value: DataLostEnd) -> (r: Self) {
        BlfObject::DataLostEnd(value)
    }
}

impl vstd::std_specs::convert::FromSpecImpl<DataLostEnd> for BlfObject {
    open spec fn obeys_from_spec() -> bool {
        true
    }

    open spec fn from_spec(value: DataLostEnd) -> Self {
        BlfObject::DataLostEnd(value)
    }
}

impl From<WaterMarkEvent> for BlfObject {
    fn from(value: WaterMarkEvent) -> (r: Self) {
        BlfObject::WaterMarkEvent(value)
    }
}

impl vstd::std_specs::convert::FromSpecImpl<WaterMarkEvent> for BlfObject {
    open spec fn obeys_from_spec() -> bool {
        true
    }

    open spec fn from_spec(value: WaterMarkEvent) -> Self {
        BlfObject::WaterMarkEvent(value)
    }
}

impl From<TriggerCondition> for BlfObject {
    fn from(value: TriggerCondition) -> (r: Self) {
        BlfObject::TriggerCondition(value)
    }
}

impl vstd::std_specs::convert::FromSpecImpl<TriggerCondition> for BlfObject {
    open spec fn obeys_from_spec() -> bool {
        true
    }

    open spec fn from_spec(value: TriggerCondition) -> Self {
        BlfObject::TriggerCondition(value)
    }
}

impl From<DistributedObjectMember> for BlfObject {
    fn from(value: DistributedObjectMember) -> (r: Self) {
        BlfObject::DistributedObjectMember(value)
    }
}

impl vstd::std_specs::convert::FromSpecImpl<DistributedObjectMember> for BlfObject {
    open spec fn obeys_from_spec() -> bool {
        true
    }

    open spec fn from_spec(value: DistributedObjectMember) -> Self {
        BlfObject::DistributedObjectMember(value)
    }
}

impl From<AttributeEvent> for BlfObject {
    fn from(value: AttributeEvent) -> (r: Self) {
        BlfObject::AttributeEvent(value)
    }
}

impl vstd::std_specs::convert::FromSpecImpl<AttributeEvent> for BlfObject {
    open spec fn obeys_from_spec() -> bool {
        true
    }

    open spec fn from_spec(value: AttributeEvent) -> Self {
        BlfObject::AttributeEvent(value)
    }
}

impl From<FunctionBus> for BlfObject {
    fn from(value: FunctionBus) -> (r: Self) {
        BlfObject::FunctionBus(value)
    }
}

impl vstd::std_specs::convert::FromSpecImpl<FunctionBus> for BlfObject {
    open spec fn obeys_from_spec() -> bool {
        true
    }

    open spec fn from_spec(value: FunctionBus) -> Self {
        BlfObject::FunctionBus(value)
    }
}

impl From<DiagRequestInterpretation> for BlfObject {
    fn from(value: DiagRequestInterpretation) -> (r: Self) {
        BlfObject::DiagRequestInterpretation(value)
    }
}

impl vstd::std_specs::convert::FromSpecImpl<DiagRequestInterpretation> for BlfObject {
    open spec fn obeys_from_spec() -> bool {
        true
    }

    open spec fn from_spec(value: DiagRequestInterpretation) -> Self {
        BlfObject::DiagRequestInterpretation(value)
    }
}

impl From<EthernetFrame> for BlfObject {
    fn from(value: EthernetFrame) -> (r: Self) {
        BlfObject::EthernetFrame(value)
    }
}

impl vstd::std_specs::convert::FromSpecImpl<EthernetFrame> for BlfObject {
    open spec fn obeys_from_spec() -> bool {
        true
    }

    open spec fn from_spec(value: EthernetFrame) -> Self {
        BlfObject::EthernetFrame(value)
    }
}

impl From<EthernetRxError> for BlfObject {
    fn from(value: EthernetRxError) -> (r: Self) {
        BlfObject::EthernetRxError(value)
    }
}

impl vstd::std_specs::convert::FromSpecImpl<EthernetRxError> for BlfObject {
    open spec fn obeys_from_spec() -> bool {
        true
    }

    open spec fn from_spec(value: EthernetRxError) -> Self {
        BlfObject::EthernetRxError(value)
    }
}

impl From<EthernetStatus> for BlfObject {
    fn from(value: EthernetStatus) -> (r: Self) {
        BlfObject::EthernetStatus(value)
    }
}

impl vstd::std_specs::convert::FromSpecImpl<EthernetStatus> for BlfObject {
    open spec fn obeys_from_spec() -> bool {
        true
    }

    open spec fn from_spec(value: EthernetStatus) -> Self {
        BlfObject::EthernetStatus(value)
    }
}

impl From<EthernetStatistic> for BlfObject {
    fn from(value: EthernetStatistic) -> (r: Self) {
        BlfObject::EthernetStatistic(value)
    }
}

impl vstd::std_specs::convert::FromSpecImpl<EthernetStatistic> for BlfObject {
    open spec fn obeys_from_spec() -> bool {
        true
    }

    open spec fn from_spec(value: EthernetStatistic) -> Self {
        BlfObject::EthernetStatistic(value)
    }
}

impl From<EthernetFrameEx> for BlfObject {
    fn from(value: EthernetFrameEx) -> (r: Self) {
        BlfObject::EthernetFrameEx(value)
    }
}

impl vstd::std_specs::convert::FromSpecImpl<EthernetFrameEx> for BlfObject {
    open spec fn obeys_from_spec() -> bool {
        true
    }

    open spec fn from_spec(value: EthernetFrameEx) -> Self {
        BlfObject::EthernetFrameEx(value)
    }
}

impl From<LinMessage> for BlfObject {
    fn from(value: LinMessage) -> (r: Self) {
        BlfObject::LinMessage(value)
    }
}

impl vstd::std_specs::convert::FromSpecImpl<LinMessage> for BlfObject {
    open spec fn obeys_from_spec() -> bool {
        true
    }

    open spec fn from_spec(value: LinMessage) -> Self {
        BlfObject::LinMessage(value)
    }
}

impl From<LinMessage2> for BlfObject {
    fn from(value: LinMessage2) -> (r: Self) {
        BlfObject::LinMessage2(value)
    }
}

impl vstd::std_specs::convert::FromSpecImpl<LinMessage2> for BlfObject {
    open spec fn obeys_from_spec() -> bool {
        true
    }

    open spec fn from_spec(value: LinMessage2) -> Self {
        BlfObject::LinMessage2(value)
    }
}

impl From<CanMessage> for BlfObject {
    fn from(value: CanMessage) -> (r: Self) {
        BlfObject::CanMessage(value)
    }
}

impl vstd::std_specs::convert::FromSpecImpl<CanMessage> for BlfObject {
    open spec fn obeys_from_spec() -> bool {
        true
    }

    open spec fn from_spec(value: CanMessage) -> Self {
        BlfObject::CanMessage(value)
    }
}

impl From<CanMessage2> for BlfObject {
    fn from(value: CanMessage2) -> (r: Self) {
        BlfObject::CanMessage2(value)
    }
}

impl vstd::std_specs::convert::FromSpecImpl<CanMessage2> for BlfObject {
    open spec fn obeys_from_spec() -> bool {
        true
    }

    open spec fn from_spec(value: CanMessage2) -> Self {
        BlfObject::CanMessage2(value)
    }
}

impl From<CanError> for BlfObject {
    fn from(value: CanError) -> (r: Self) {
        BlfObject::CanError(value)
    }
}

impl vstd::std_specs::convert::FromSpecImpl<CanError> for BlfObject {
    open spec fn obeys_from_spec() -> bool {
        true
    }

    open spec fn from_spec(value: CanError) -> Self {
        BlfObject::CanError(value)
    }
}

impl From<CanErrorExt> for BlfObject {
    fn from(value: CanErrorExt) -> (r: Self) {
        BlfObject::CanErrorExt(value)
    }
}

impl vstd::std_specs::convert::FromSpecImpl<CanErrorExt> for BlfObject {
    open spec fn obeys_from_spec() -> bool {
        true
    }

    open spec fn from_spec(value: CanErrorExt) -> Self {
        BlfObject::CanErrorExt(value)
    }
}

impl From<CanOverload> for BlfObject {
    fn from(value: CanOverload) -> (r: Self) {
        BlfObject::CanOverload(value)
    }
}

impl vstd::std_specs::convert::FromSpecImpl<CanOverload> for BlfObject {
    open spec fn obeys_from_spec() -> bool {
        true
    }

    open spec fn from_spec(value: CanOverload) -> Self {
        BlfObject::CanOverload(value)
    }
}

impl From<CanFdMessage> for BlfObject {
    fn from(value: CanFdMessage) -> (r: Self) {
        BlfObject::CanFdMessage(value)
    }
}

impl vstd::std_specs::convert::FromSpecImpl<CanFdMessage> for BlfObject {
    open spec fn obeys_from_spec() -> bool {
        true
    }

    open spec fn from_spec(value: CanFdMessage) -> Self {
        BlfObject::CanFdMessage(value)
    }
}

impl From<CanFdManaged> for BlfObject {
    fn from(value: CanFdManaged) -> (r: Self) {
        BlfObject::CanFdMessage64(value)
    }
}

impl vstd::std_specs::convert::FromSpecImpl<CanFdManaged> for BlfObject {
    open spec fn obeys_from_spec() -> bool {
        true
    }

    open spec fn from_spec(value: CanFdManaged) -> Self {
        BlfObject::CanFdMessage64(value)
    }
}

impl From<CanFdError64> for BlfObject {
    fn from(value: CanFdError64) -> (r: Self) {
        BlfObject::CanFdError64(value)
    }
}

impl vstd::std_specs::convert::FromSpecImpl<CanFdError64> for BlfObject {
    open spec fn obeys_from_spec() -> bool {
        true
    }

    open spec fn from_spec(value: CanFdError64) -> Self {
        BlfObject::CanFdError64(value)
    }
}

impl From<CanStatistic> for BlfObject {
    fn from(value: CanStatistic) -> (r: Self) {
        BlfObject::CanStatistic(value)
    }
}

impl vstd::std_specs::convert::FromSpecImpl<CanStatistic> for BlfObject {
    open spec fn obeys_from_spec() -> bool {
        true
    }

    open spec fn from_spec(value: CanStatistic) -> Self {
        BlfObject::CanStatistic(value)
    }
}

impl From<CanDriverError> for BlfObject {
    fn from(value: CanDriverError) -> (r: Self) {
        BlfObject::CanDriverError(value)
    }
}

impl vstd::std_specs::convert::FromSpecImpl<CanDriverError> for BlfObject {
    open spec fn obeys_from_spec() -> bool {
        true
    }

    open spec fn from_spec(value: CanDriverError) -> Self {
        BlfObject::CanDriverError(value)
    }
}

impl From<CanDriverSync> for BlfObject {
    fn from(value: CanDriverSync) -> (r: Self) {
        BlfObject::CanDriverSync(value)
    }
}

impl vstd::std_specs::convert::FromSpecImpl<CanDriverSync> for BlfObject {
    open spec fn obeys_from_spec() -> bool {
        true
    }

    open spec fn from_spec(value: CanDriverSync) -> Self {
        BlfObject::CanDriverSync(value)
    }
}

impl From<CanDriverErrorExt> for BlfObject {
    fn from(value: CanDriverErrorExt) -> (r: Self) {
        BlfObject::CanDriverErrorExt(value)
    }
}

impl vstd::std_specs::convert::FromSpecImpl<CanDriverErrorExt> for BlfObject {
    open spec fn obeys_from_spec() -> bool {
        true
    }

    open spec fn from_spec(value: CanDriverErrorExt) -> Self {
        BlfObject::CanDriverErrorExt(value)
    }
}

impl From<CanSettingChanged> for BlfObject {
    fn from(value: CanSettingChanged) -> (r: Self) {
        BlfObject::CanSettingChanged(value)
    }
}

impl vstd::std_specs::convert::FromSpecImpl<CanSettingChanged> for BlfObject {
    open spec fn obeys_from_spec() -> bool {
        true
    }

    open spec fn from_spec(value: CanSettingChanged) -> Self {
        BlfObject::CanSettingChanged(value)
    }
}

impl From<AppTextManaged> for BlfObject {
    fn from(value: AppTextManaged) -> (r: Self) {
        BlfObject::AppText(value)
    }
}

impl vstd::std_specs::convert::FromSpecImpl<AppTextManaged> for BlfObject {
    open spec fn obeys_from_spec() -> bool {
        true
    }

    open spec fn from_spec(value: AppTextManaged) -> Self {
        BlfObject::AppText(value)
    }
}

impl From<SysVariableManaged> for BlfObject {
    fn from(value: SysVariableManaged) -> (r: Self) {
        BlfObject::SysVariable(value)
    }
}

impl vstd::std_specs::convert::FromSpecImpl<SysVariableManaged> for BlfObject {
    open spec fn obeys_from_spec() -> bool {
        true
    }

    open spec fn from_spec(value: SysVariableManaged) -> Self {
        BlfObject::SysVariable(value)
    }
}

impl From<RestorePointContainerManaged> for BlfObject {
    fn from(value: RestorePointContainerManaged) -> (r: Self) {
        BlfObject::RestorePointContainer(value)
    }
}

impl vstd::std_specs::convert::FromSpecImpl<RestorePointContainerManaged> for BlfObject {
    open spec fn obeys_from_spec() -> bool {
        true
    }

    open spec fn from_spec(value: RestorePointContainerManaged) -> Self {
        BlfObject::RestorePointContainer(value)
    }
}

/// The message for an opaque object that does not fit into the size field.
pub open spec fn opaque_limit_message() -> Seq<char> {
    "opaque BLF object exceeds the u32 size limit"@
}

/// The channel that a filter asks for; a negative one asks for all of them.
pub open spec fn channel_matches(filter: i32, channel: u16) -> bool {
    filter < 0 || channel == low16(filter as int)
}

fn accepts_channel(filter: i32, channel: u16) -> (r: bool)
    ensures
        r == channel_matches(filter, channel),
{
    proof {
        reveal(low16);
    }
    filter < 0 || channel == (filter % 65536) as u16
}

impl BlfObject {
    /// The header of the object.
    pub open spec fn head(self) -> LObj {
        match self {
            BlfObject::AppTrigger(o) => o.header,
            BlfObject::EnvironmentVariable(o) => o.header,
            BlfObject::RealtimeClock(o) => o.header,
            BlfObject::DriverOverrun(o) => o.header,
            BlfObject::EventComment(o) => o.header,
            BlfObject::GlobalMarker(o) => o.header,
            BlfObject::GpsEvent(o) => o.header,
            BlfObject::DataLostBegin(o) => o.header,
            BlfObject::DataLostEnd(o) => o.header,
            BlfObject::WaterMarkEvent(o) => o.header,
            BlfObject::TriggerCondition(o) => o.header,
            BlfObject::DistributedObjectMember(o) => o.header,
            BlfObject::AttributeEvent(o) => o.header,
            BlfObject::FunctionBus(o) => o.header,
            BlfObject::DiagRequestInterpretation(o) => o.header,
            BlfObject::EthernetFrame(o) => o.header,
            BlfObject::EthernetRxError(o) => o.header,
            BlfObject::EthernetStatus(o) => o.header,
            BlfObject::EthernetStatistic(o) => o.header,
            BlfObject::EthernetFrameEx(o) => o.header,
            BlfObject::LinMessage(o) => o.header,
            BlfObject::LinMessage2(o) => o.header,
            BlfObject::CanMessage(o) => o.header,
            BlfObject::CanMessage2(o) => o.header,
            BlfObject::CanError(o) => o.header,
            BlfObject::CanErrorExt(o) => o.header,
            BlfObject::CanOverload(o) => o.header,
            BlfObject::CanFdMessage(o) => o.header,
            BlfObject::CanFdMessage64(o) => o.header,
            BlfObject::CanFdError64(o) => o.header,
            BlfObject::CanStatistic(o) => o.header,
            BlfObject::CanDriverError(o) => o.header,
            BlfObject::CanDriverSync(o) => o.header,
            BlfObject::CanDriverErrorExt(o) => o.header,
            BlfObject::CanSettingChanged(o) => o.header,
            BlfObject::AppText(o) => o.header,
            BlfObject::SysVariable(o) => o.header,
            BlfObject::RestorePointContainer(o) => o.header,
            BlfObject::Raw { header, data } => header,
            BlfObject::Unknown { header, data } => header,
        }
    }

    /// The bytes of the object, without padding.
    pub open spec fn encoding(self) -> Seq<u8> {
        match self {
            BlfObject::AppTrigger(o) => o.encoding(),
            BlfObject::EnvironmentVariable(o) => o.encoding(),
            BlfObject::RealtimeClock(o) => o.encoding(),
            BlfObject::DriverOverrun(o) => o.encoding(),
            BlfObject::EventComment(o) => o.encoding(),
            BlfObject::GlobalMarker(o) => o.encoding(),
            BlfObject::GpsEvent(o) => o.encoding(),
            BlfObject::DataLostBegin(o) => o.encoding(),
            BlfObject::DataLostEnd(o) => o.encoding(),
            BlfObject::WaterMarkEvent(o) => o.encoding(),
            BlfObject::TriggerCondition(o) => o.encoding(),
            BlfObject::DistributedObjectMember(o) => o.encoding(),
            BlfObject::AttributeEvent(o) => o.encoding(),
            BlfObject::FunctionBus(o) => o.encoding(),
            BlfObject::DiagRequestInterpretation(o) => o.encoding(),
            BlfObject::EthernetFrame(o) => o.encoding(),
            BlfObject::EthernetRxError(o) => o.encoding(),
            BlfObject::EthernetStatus(o) => o.encoding(),
            BlfObject::EthernetStatistic(o) => o.encoding(),
            BlfObject::EthernetFrameEx(o) => o.encoding(),
            BlfObject::LinMessage(o) => o.encoding(),
            BlfObject::LinMessage2(o) => o.encoding(),
            BlfObject::CanMessage(o) => o.encoding(),
            BlfObject::CanMessage2(o) => o.encoding(),
            BlfObject::CanError(o) => o.encoding(),
            BlfObject::CanErrorExt(o) => o.encoding(),
            BlfObject::CanOverload(o) => o.encoding(),
            BlfObject::CanFdMessage(o) => o.encoding(),
            BlfObject::CanFdMessage64(o) => o.encoding(),
            BlfObject::CanFdError64(o) => o.encoding(),
            BlfObject::CanStatistic(o) => o.encoding(),
            BlfObject::CanDriverError(o) => o.encoding(),
            BlfObject::CanDriverSync(o) => o.encoding(),
            BlfObject::CanDriverErrorExt(o) => o.encoding(),
            BlfObject::CanSettingChanged(o) => o.encoding(),
            BlfObject::AppText(o) => o.encoding(),
            BlfObject::SysVariable(o) => o.encoding(),
            BlfObject::RestorePointContainer(o) => o.encoding(),
            BlfObject::Raw { header, data } => header.encoding() + data@,
            BlfObject::Unknown { header, data } => header.encoding() + data@,
        }
    }

    /// Whether two objects are of the same kind and agree in every field.
    pub open spec fn same(self, other: Self) -> bool {
        match (self, other) {
            (BlfObject::AppTrigger(a), BlfObject::AppTrigger(b)) => a.same(b),
            (BlfObject::EnvironmentVariable(a), BlfObject::EnvironmentVariable(b)) => a.same(b),
            (BlfObject::RealtimeClock(a), BlfObject::RealtimeClock(b)) => a.same(b),
            (BlfObject::DriverOverrun(a), BlfObject::DriverOverrun(b)) => a.same(b),
            (BlfObject::EventComment(a), BlfObject::EventComment(b)) => a.same(b),
            (BlfObject::GlobalMarker(a), BlfObject::GlobalMarker(b)) => a.same(b),
            (BlfObject::GpsEvent(a), BlfObject::GpsEvent(b)) => a.same(b),
            (BlfObject::DataLostBegin(a), BlfObject::DataLostBegin(b)) => a.same(b),
            (BlfObject::DataLostEnd(a), BlfObject::DataLostEnd(b)) => a.same(b),
            (BlfObject::WaterMarkEvent(a), BlfObject::WaterMarkEvent(b)) => a.same(b),
            (BlfObject::TriggerCondition(a), BlfObject::TriggerCondition(b)) => a.same(b),
            (BlfObject::DistributedObjectMember(a), BlfObject::DistributedObjectMember(b)) => a.same(b),
            (BlfObject::AttributeEvent(a), BlfObject::AttributeEvent(b)) => a.same(b),
            (BlfObject::FunctionBus(a), BlfObject::FunctionBus(b)) => a.same(b),
            (BlfObject::DiagRequestInterpretation(a), BlfObject::DiagRequestInterpretation(b)) => a.same(b),
            (BlfObject::EthernetFrame(a), BlfObject::EthernetFrame(b)) => a.same(b),
            (BlfObject::EthernetRxError(a), BlfObject::EthernetRxError(b)) => a.same(b),
            (BlfObject::EthernetStatus(a), BlfObject::EthernetStatus(b)) => a.same(b),
            (BlfObject::EthernetStatistic(a), BlfObject::EthernetStatistic(b)) => a.same(b),
            (BlfObject::EthernetFrameEx(a), BlfObject::EthernetFrameEx(b)) => a.same(b),
            (BlfObject::LinMessage(a), BlfObject::LinMessage(b)) => a.same(b),
            (BlfObject::LinMessage2(a), BlfObject::LinMessage2(b)) => a.same(b),
            (BlfObject::CanMessage(a), BlfObject::CanMessage(b)) => a.same(b),
            (BlfObject::CanMessage2(a), BlfObject::CanMessage2(b)) => a.same(b),
            (BlfObject::CanError(a), BlfObject::CanError(b)) => a.same(b),
            (BlfObject::CanErrorExt(a), BlfObject::CanErrorExt(b)) => a.same(b),
            (BlfObject::CanOverload(a), BlfObject::CanOverload(b)) => a.same(b),
            (BlfObject::CanFdMessage(a), BlfObject::CanFdMessage(b)) => a.same(b),
            (BlfObject::CanFdMessage64(a), BlfObject::CanFdMessage64(b)) => a.same(b),
            (BlfObject::CanFdError64(a), BlfObject::CanFdError64(b)) => a.same(b),
            (BlfObject::CanStatistic(a), BlfObject::CanStatistic(b)) => a.same(b),
            (BlfObject::CanDriverError(a), BlfObject::CanDriverError(b)) => a.same(b),
            (BlfObject::CanDriverSync(a), BlfObject::CanDriverSync(b)) => a.same(b),
            (BlfObject::CanDriverErrorExt(a), BlfObject::CanDriverErrorExt(b)) => a.same(b),
            (BlfObject::CanSettingChanged(a), BlfObject::CanSettingChanged(b)) => a.same(b),
            (BlfObject::AppText(a), BlfObject::AppText(b)) => a.same(b),
            (BlfObject::SysVariable(a), BlfObject::SysVariable(b)) => a.same(b),
            (BlfObject::RestorePointContainer(a), BlfObject::RestorePointContainer(b)) => a.same(b),
            (
                BlfObject::Raw { header: h1, data: d1 },
                BlfObject::Raw { header: h2, data: d2 },
            ) => h1.same(h2) && d1@ == d2@,
            (
                BlfObject::Unknown { header: h1, data: d1 },
                BlfObject::Unknown { header: h2, data: d2 },
            ) => h1.same(h2) && d1@ == d2@,
            _ => false,
        }
    }

    /// Whether the library decodes the fields of objects of the type.
    pub open spec fn is_typed(t: ObjectType) -> bool {
        match t {
            ObjectType::AppTrigger => true,
            ObjectType::EnvInteger | ObjectType::EnvDouble | ObjectType::EnvString | ObjectType::EnvData => true,
            ObjectType::Realtimclock => true,
            ObjectType::OverrunError => true,
            ObjectType::EventComment => true,
            ObjectType::GlobalMarker => true,
            ObjectType::GpsEvent => true,
            ObjectType::DataLostBegin => true,
            ObjectType::DataLostEnd => true,
            ObjectType::WaterMarkEvent => true,
            ObjectType::TriggerCondition => true,
            ObjectType::DistributedObjectMember => true,
            ObjectType::AttributeEvent => true,
            ObjectType::FunctionBus => true,
            ObjectType::DiagRequestInterpretation => true,
            ObjectType::EthernetFrame => true,
            ObjectType::EthernetRxError => true,
            ObjectType::EthernetStatus => true,
            ObjectType::EthernetStatistic => true,
            ObjectType::EthernetFrameEx | ObjectType::EthernetFrameForwarded | ObjectType::EthernetErrorEx | ObjectType::EthernetErrorForwarded => true,
            ObjectType::LinMessage => true,
            ObjectType::LinMessage2 => true,
            ObjectType::CanMessage => true,
            ObjectType::CanMessage2 => true,
            ObjectType::CanError => true,
            ObjectType::CanErrorExt => true,
            ObjectType::CanOverload => true,
            ObjectType::CanFdMessage => true,
            ObjectType::CanFdMessage64 => true,
            ObjectType::CanFdError64 => true,
            ObjectType::CanStatistic => true,
            ObjectType::CanDriverError => true,
            ObjectType::CanDriverSync => true,
            ObjectType::CanDriverErrorExt => true,
            ObjectType::CanSettingChanged => true,
            ObjectType::AppText => true,
            ObjectType::SysVariable => true,
            ObjectType::RestorepointContainer => true,
            _ => false,
        }
    }

    /// How decoding the fields of an object of the type fails, if it does.
    pub open spec fn typed_failure(t: ObjectType, body: Seq<u8>, base: int) -> Option<Failure> {
        match t {
            ObjectType::AppTrigger => AppTrigger::failure(body, base),
            ObjectType::EnvInteger | ObjectType::EnvDouble | ObjectType::EnvString | ObjectType::EnvData => EnvironmentVariable::failure(body, base),
            ObjectType::Realtimclock => RealtimeClock::failure(body, base),
            ObjectType::OverrunError => DriverOverrun::failure(body, base),
            ObjectType::EventComment => EventComment::failure(body, base),
            ObjectType::GlobalMarker => GlobalMarker::failure(body, base),
            ObjectType::GpsEvent => GpsEvent::failure(body, base),
            ObjectType::DataLostBegin => DataLostBegin::failure(body, base),
            ObjectType::DataLostEnd => DataLostEnd::failure(body, base),
            ObjectType::WaterMarkEvent => WaterMarkEvent::failure(body, base),
            ObjectType::TriggerCondition => TriggerCondition::failure(body, base),
            ObjectType::DistributedObjectMember => DistributedObjectMember::failure(body, base),
            ObjectType::AttributeEvent => AttributeEvent::failure(body, base),
            ObjectType::FunctionBus => FunctionBus::failure(body, base),
            ObjectType::DiagRequestInterpretation => DiagRequestInterpretation::failure(body, base),
            ObjectType::EthernetFrame => EthernetFrame::failure(body, base),
            ObjectType::EthernetRxError => EthernetRxError::failure(body, base),
            ObjectType::EthernetStatus => EthernetStatus::failure(body, base),
            ObjectType::EthernetStatistic => EthernetStatistic::failure(body, base),
            ObjectType::EthernetFrameEx | ObjectType::EthernetFrameForwarded | ObjectType::EthernetErrorEx | ObjectType::EthernetErrorForwarded => EthernetFrameEx::failure(body, base),
            ObjectType::LinMessage => LinMessage::failure(body, base),
            ObjectType::LinMessage2 => LinMessage2::failure(body, base),
            ObjectType::CanMessage => CanMessage::failure(body, base),
            ObjectType::CanMessage2 => CanMessage2::failure(body, base),
            ObjectType::CanError => CanError::failure(body, base),
            ObjectType::CanErrorExt => CanErrorExt::failure(body, base),
            ObjectType::CanOverload => CanOverload::failure(body, base),
            ObjectType::CanFdMessage => CanFdMessage::failure(body, base),
            ObjectType::CanFdMessage64 => CanFdManaged::failure(body, base),
            ObjectType::CanFdError64 => CanFdError64::failure(body, base),
            ObjectType::CanStatistic => CanStatistic::failure(body, base),
            ObjectType::CanDriverError => CanDriverError::failure(body, base),
            ObjectType::CanDriverSync => CanDriverSync::failure(body, base),
            ObjectType::CanDriverErrorExt => CanDriverErrorExt::failure(body, base),
            ObjectType::CanSettingChanged => CanSettingChanged::failure(body, base),
            ObjectType::AppText => AppTextManaged::failure(body, base),
            ObjectType::SysVariable => SysVariableManaged::failure(body, base),
            ObjectType::RestorepointContainer => RestorePointContainerManaged::failure(body, base),
            _ => None,
        }
    }

    /// Whether the object is the one of the type that stands in the bytes.
    pub open spec fn typed_reads(self, t: ObjectType, body: Seq<u8>) -> bool {
        match self {
            BlfObject::AppTrigger(o) => (t == ObjectType::AppTrigger) && o.reads(body),
            BlfObject::EnvironmentVariable(o) => (
                t == ObjectType::EnvInteger || t == ObjectType::EnvDouble || t == ObjectType::EnvString || t == ObjectType::EnvData
            ) && o.reads(body),
            BlfObject::RealtimeClock(o) => (t == ObjectType::Realtimclock) && o.reads(body),
            BlfObject::DriverOverrun(o) => (t == ObjectType::OverrunError) && o.reads(body),
            BlfObject::EventComment(o) => (t == ObjectType::EventComment) && o.reads(body),
            BlfObject::GlobalMarker(o) => (t == ObjectType::GlobalMarker) && o.reads(body),
            BlfObject::GpsEvent(o) => (t == ObjectType::GpsEvent) && o.reads(body),
            BlfObject::DataLostBegin(o) => (t == ObjectType::DataLostBegin) && o.reads(body),
            BlfObject::DataLostEnd(o) => (t == ObjectType::DataLostEnd) && o.reads(body),
            BlfObject::WaterMarkEvent(o) => (t == ObjectType::WaterMarkEvent) && o.reads(body),
            BlfObject::TriggerCondition(o) => (t == ObjectType::TriggerCondition) && o.reads(body),
            BlfObject::DistributedObjectMember(o) => (t == ObjectType::DistributedObjectMember) && o.reads(body),
            BlfObject::AttributeEvent(o) => (t == ObjectType::AttributeEvent) && o.reads(body),
            BlfObject::FunctionBus(o) => (t == ObjectType::FunctionBus) && o.reads(body),
            BlfObject::DiagRequestInterpretation(o) => (
                t == ObjectType::DiagRequestInterpretation
            ) && o.reads(body),
            BlfObject::EthernetFrame(o) => (t == ObjectType::EthernetFrame) && o.reads(body),
            BlfObject::EthernetRxError(o) => (t == ObjectType::EthernetRxError) && o.reads(body),
            BlfObject::EthernetStatus(o) => (t == ObjectType::EthernetStatus) && o.reads(body),
            BlfObject::EthernetStatistic(o) => (t == ObjectType::EthernetStatistic) && o.reads(body),
            BlfObject::EthernetFrameEx(o) => (
                t == ObjectType::EthernetFrameEx || t == ObjectType::EthernetFrameForwarded || t == ObjectType::EthernetErrorEx || t == ObjectType::EthernetErrorForwarded
            ) && o.reads(body),
            BlfObject::LinMessage(o) => (t == ObjectType::LinMessage) && o.reads(body),
            BlfObject::LinMessage2(o) => (t == ObjectType::LinMessage2) && o.reads(body),
            BlfObject::CanMessage(o) => (t == ObjectType::CanMessage) && o.reads(body),
            BlfObject::CanMessage2(o) => (t == ObjectType::CanMessage2) && o.reads(body),
            BlfObject::CanError(o) => (t == ObjectType::CanError) && o.reads(body),
            BlfObject::CanErrorExt(o) => (t == ObjectType::CanErrorExt) && o.reads(body),
            BlfObject::CanOverload(o) => (t == ObjectType::CanOverload) && o.reads(body),
            BlfObject::CanFdMessage(o) => (t == ObjectType::CanFdMessage) && o.reads(body),
            BlfObject::CanFdMessage64(o) => (t == ObjectType::CanFdMessage64) && o.reads(body),
            BlfObject::CanFdError64(o) => (t == ObjectType::CanFdError64) && o.reads(body),
            BlfObject::CanStatistic(o) => (t == ObjectType::CanStatistic) && o.reads(body),
            BlfObject::CanDriverError(o) => (t == ObjectType::CanDriverError) && o.reads(body),
            BlfObject::CanDriverSync(o) => (t == ObjectType::CanDriverSync) && o.reads(body),
            BlfObject::CanDriverErrorExt(o) => (t == ObjectType::CanDriverErrorExt) && o.reads(body),
            BlfObject::CanSettingChanged(o) => (t == ObjectType::CanSettingChanged) && o.reads(body),
            BlfObject::AppText(o) => (t == ObjectType::AppText) && o.reads(body),
            BlfObject::SysVariable(o) => (t == ObjectType::SysVariable) && o.reads(body),
            BlfObject::RestorePointContainer(o) => (t == ObjectType::RestorepointContainer) && o.reads(body),
            _ => false,
        }
    }

    /// Whether the header in the bytes is a version-1 header without extension, the form
    /// whose objects are decoded.
    pub open spec fn plain_header(s: Seq<u8>) -> bool {
        u16_at(s, 6) == 1 && u16_at(s, 4) == 32
    }

    /// How reading an object fails, if it does. A global marker whose fields cannot be
    /// decoded is kept as a raw object.
    #[verifier::opaque]
    pub open spec fn failure(s: Seq<u8>, base: int) -> Option<Failure> {
        let size = u32_at(s, 8);
        let object_type = ObjectType::of_raw(u32_at(s, 12));
        if LObj::failure(s, base) is Some {
            LObj::failure(s, base)
        } else if size < 32 {
            Some(
                Failure::Parse(
                    base,
                    "object size "@ + dec(size as nat) + " smaller than LObj header"@,
                ),
            )
        } else if s.len() < size {
            Some(
                Failure::Parse(
                    base,
                    "object size "@ + dec(size as nat) + " exceeds available "@ + dec(s.len())
                        + " bytes"@,
                ),
            )
        } else if Self::plain_header(s) && object_type is Some
            && object_type != Some(ObjectType::GlobalMarker) {
            Self::typed_failure(object_type->0, s.subrange(0, size as int), base)
        } else {
            None
        }
    }

    /// Whether the fields of the object that stands in the bytes are decoded.
    pub open spec fn decodes(s: Seq<u8>, base: int) -> bool {
        let body = s.subrange(0, u32_at(s, 8) as int);
        match ObjectType::of_raw(u32_at(s, 12)) {
            Some(t) => Self::plain_header(s) && Self::is_typed(t) && Self::typed_failure(
                t,
                body,
                base,
            ) is None,
            None => false,
        }
    }

    /// Whether the object is the one that stands in the bytes. One that is not decoded keeps
    /// its payload as it is.
    #[verifier::opaque]
    pub open spec fn reads(self, s: Seq<u8>, base: int) -> bool {
        let size = u32_at(s, 8) as int;
        let object_type = ObjectType::of_raw(u32_at(s, 12));
        if Self::decodes(s, base) {
            self.typed_reads(object_type->0, s.subrange(0, size))
        } else {
            match self {
                BlfObject::Raw { header, data } => {
                    &&& object_type is Some
                    &&& header.reads(s)
                    &&& data@ == s.subrange(u16_at(s, 4) as int, size)
                },
                BlfObject::Unknown { header, data } => {
                    &&& object_type is None
                    &&& header.reads(s)
                    &&& data@ == s.subrange(u16_at(s, 4) as int, size)
                },
                _ => false,
            }
        }
    }

    /// How deeply the object is decoded.
    pub fn representation(&self) -> (r: ObjectRepresentation)
        ensures
            r == (match self {
                BlfObject::Raw { .. } => ObjectRepresentation::RegisteredRaw,
                BlfObject::Unknown { .. } => ObjectRepresentation::Unknown,
                _ => ObjectRepresentation::Typed,
            }),
    {
        match self {
            BlfObject::Raw { .. } => ObjectRepresentation::RegisteredRaw,
            BlfObject::Unknown { .. } => ObjectRepresentation::Unknown,
            _ => ObjectRepresentation::Typed,
        }
    }

    /// Creates an opaque object for a known or future BLF object type.
    pub fn opaque(
        object_type: u32,
        object_flags: ObjectFlags,
        timestamp: u64,
        data: Vec<u8>,
    ) -> (r: Result<Self>)
        ensures
            match r {
                Ok(BlfObject::Raw { header, data: d }) => {
                    &&& 32 + data@.len() <= u32::MAX
                    &&& ObjectType::of_raw(object_type) is Some
                    &&& header.is_new(
                        object_type,
                        object_flags,
                        timestamp,
                        (32 + data@.len()) as u32,
                    )
                    &&& d@ == data@
                },
                Ok(BlfObject::Unknown { header, data: d }) => {
                    &&& 32 + data@.len() <= u32::MAX
                    &&& ObjectType::of_raw(object_type) is None
                    &&& header.is_new(
                        object_type,
                        object_flags,
                        timestamp,
                        (32 + data@.len()) as u32,
                    )
                    &&& d@ == data@
                },
                Ok(_) => false,
                Err(e) => {
                    &&& 32 + data@.len() > u32::MAX
                    &&& e@ == Failure::Write(opaque_limit_message())
                },
            },
    {
        let size: u128 = LOBJ_SIZE as u128 + data.len() as u128;
        if size > u32::MAX as u128 {
            return Err(Error::Write("opaque BLF object exceeds the u32 size limit".to_string()));
        }
        let header = LObj::new_raw(object_type, object_flags, timestamp, size as u32);
        if ObjectType::from_raw(object_type).is_some() {
            Ok(BlfObject::Raw { header, data })
        } else {
            Ok(BlfObject::Unknown { header, data })
        }
    }

    /// Returns the uninterpreted payload when this is an opaque object.
    pub fn opaque_data(&self) -> (r: Option<&[u8]>)
        ensures
            match self {
                BlfObject::Raw { header, data } => r is Some && r->0@ == data@,
                BlfObject::Unknown { header, data } => r is Some && r->0@ == data@,
                _ => r is None,
            },
    {
        match self {
            BlfObject::Raw { data, .. } => Some(data.as_slice()),
            BlfObject::Unknown { data, .. } => Some(data.as_slice()),
            _ => None,
        }
    }

    /// The payload of an opaque object.
    pub open spec fn payload(self) -> Option<Seq<u8>> {
        match self {
            BlfObject::Raw { header, data } => Some(data@),
            BlfObject::Unknown { header, data } => Some(data@),
            _ => None,
        }
    }

    /// Whether the object is the old one with another payload and the size that goes with
    /// it.
    pub open spec fn is_repacked(self, old_object: BlfObject, data: Seq<u8>) -> bool {
        let size = (old_object.head().base.header_size + data.len()) as u32;
        match (old_object, self) {
            (BlfObject::Raw { header: h, .. }, BlfObject::Raw { header, data: d }) => {
                header == crate::blf::can_ext::resized(h, size) && d@ == data
            },
            (BlfObject::Unknown { header: h, .. }, BlfObject::Unknown { header, data: d }) => {
                header == crate::blf::can_ext::resized(h, size) && d@ == data
            },
            _ => false,
        }
    }

    /// Replaces the payload of an opaque object and updates its declared size.
    pub fn set_opaque_data(&mut self, data: Vec<u8>) -> (r: Result<()>)
        ensures
            match r {
                Ok(_) => {
                    &&& old(self).payload() is Some
                    &&& old(self).head().base.header_size + data@.len() <= u32::MAX
                    &&& final(self).is_repacked(*old(self), data@)
                },
                Err(e) => {
                    &&& *final(self) == *old(self)
                    &&& if old(self).payload() is None {
                        e@ == Failure::Write("object has a typed payload"@)
                    } else {
                        &&& old(self).head().base.header_size + data@.len() > u32::MAX
                        &&& e@ == Failure::Write(opaque_limit_message())
                    }
                },
            },
    {
        let header_size: u16 = match self {
            BlfObject::Raw { header, .. } => header.base.header_size,
            BlfObject::Unknown { header, .. } => header.base.header_size,
            _ => return Err(Error::Write("object has a typed payload".to_string())),
        };
        let size: u128 = header_size as u128 + data.len() as u128;
        if size > u32::MAX as u128 {
            return Err(Error::Write("opaque BLF object exceeds the u32 size limit".to_string()));
        }
        match self {
            BlfObject::Raw { header, data: current } => {
                header.base.object_size = size as u32;
                *current = data;
            },
            BlfObject::Unknown { header, data: current } => {
                header.base.object_size = size as u32;
                *current = data;
            },
            _ => {},
        }
        Ok(())
    }

    pub fn object_type(&self) -> (r: u32)
        ensures
            r == self.head().base.object_type,
    {
        self.header().base.object_type
    }

    pub fn header(&self) -> (r: &LObj)
        ensures
            *r == self.head(),
    {
        match self {
            BlfObject::AppTrigger(o) => &o.header,
            BlfObject::EnvironmentVariable(o) => &o.header,
            BlfObject::RealtimeClock(o) => &o.header,
            BlfObject::DriverOverrun(o) => &o.header,
            BlfObject::EventComment(o) => &o.header,
            BlfObject::GlobalMarker(o) => &o.header,
            BlfObject::GpsEvent(o) => &o.header,
            BlfObject::DataLostBegin(o) => &o.header,
            BlfObject::DataLostEnd(o) => &o.header,
            BlfObject::WaterMarkEvent(o) => &o.header,
            BlfObject::TriggerCondition(o) => &o.header,
            BlfObject::DistributedObjectMember(o) => &o.header,
            BlfObject::AttributeEvent(o) => &o.header,
            BlfObject::FunctionBus(o) => &o.header,
            BlfObject::DiagRequestInterpretation(o) => &o.header,
            BlfObject::EthernetFrame(o) => &o.header,
            BlfObject::EthernetRxError(o) => &o.header,
            BlfObject::EthernetStatus(o) => &o.header,
            BlfObject::EthernetStatistic(o) => &o.header,
            BlfObject::EthernetFrameEx(o) => &o.header,
            BlfObject::LinMessage(o) => &o.header,
            BlfObject::LinMessage2(o) => &o.header,
            BlfObject::CanMessage(o) => &o.header,
            BlfObject::CanMessage2(o) => &o.header,
            BlfObject::CanError(o) => &o.header,
            BlfObject::CanErrorExt(o) => &o.header,
            BlfObject::CanOverload(o) => &o.header,
            BlfObject::CanFdMessage(o) => &o.header,
            BlfObject::CanFdMessage64(o) => &o.header,
            BlfObject::CanFdError64(o) => &o.header,
            BlfObject::CanStatistic(o) => &o.header,
            BlfObject::CanDriverError(o) => &o.header,
            BlfObject::CanDriverSync(o) => &o.header,
            BlfObject::CanDriverErrorExt(o) => &o.header,
            BlfObject::CanSettingChanged(o) => &o.header,
            BlfObject::AppText(o) => &o.header,
            BlfObject::SysVariable(o) => &o.header,
            BlfObject::RestorePointContainer(o) => &o.header,
            BlfObject::Raw { header, .. } => header,
            BlfObject::Unknown { header, .. } => header,
        }
    }

    /// Number of padding bytes that follow the object.
    pub open spec fn spec_padding(self) -> u32 {
        LObj::padding_of(self.head().base.object_type, self.head().base.object_size)
    }

    /// Number of padding bytes that follow the object.
    pub fn padding(&self) -> (r: u32)
        ensures
            r == self.spec_padding(),
            r < 4,
    {
        self.header().padding()
    }

    pub fn timestamp(&self) -> (r: u64)
        ensures
            r == self.head().timestamp,
    {
        self.header().timestamp
    }

    pub fn parse(bytes: &[u8], base: u64) -> (r: Result<Self>)
        requires
            offsets_fit(base, bytes.len(), 120),
            BlfObject::failure(bytes@, base as int) is None ==> u16_at(bytes@, 4) <= u32_at(
                bytes@,
                8,
            ),
        ensures
            match r {
                Ok(o) => {
                    &&& Self::failure(bytes@, base as int) is None
                    &&& o.reads(bytes@, base as int)
                    &&& o.head().valid()
                    &&& o.head().reads(bytes@.subrange(0, u32_at(bytes@, 8) as int))
                    &&& 32 <= u32_at(bytes@, 8) <= bytes.len()
                },
                Err(e) => Self::failure(bytes@, base as int) == Some(e@),
            },
    {
        proof {
            reveal(BlfObject::failure);
            reveal(BlfObject::reads);
        }
        let header = LObj::parse(bytes, base)?;
        let object_size: usize = header.base.object_size as usize;
        if object_size < LOBJ_SIZE {
            let mut message = "object size ".to_string();
            push_dec(&mut message, object_size as u64);
            message.append(" smaller than LObj header");
            return parse_err(base, message);
        }
        if bytes.len() < object_size {
            let mut message = "object size ".to_string();
            push_dec(&mut message, object_size as u64);
            message.append(" exceeds available ");
            push_dec(&mut message, bytes.len() as u64);
            message.append(" bytes");
            return parse_err(base, message);
        }
        let body = &bytes[0..object_size];
        proof {
            lemma_header_of_body(bytes@, object_size as int, base as int, header);
        }
        let header_size: usize = header.base.header_size as usize;
        let typed_v1 = header.base.header_version == 1 && header_size == LOBJ_SIZE;
        if typed_v1 {
            match header.base.object_type() {
                Some(ObjectType::AppTrigger) => {
                    return Ok(BlfObject::AppTrigger(AppTrigger::parse(body, base)?));
                },
                Some(
                    ObjectType::EnvInteger
                    | ObjectType::EnvDouble
                    | ObjectType::EnvString
                    | ObjectType::EnvData,
                ) => {
                    return Ok(BlfObject::EnvironmentVariable(EnvironmentVariable::parse(body, base)?));
                },
                Some(ObjectType::Realtimclock) => {
                    return Ok(BlfObject::RealtimeClock(RealtimeClock::parse(body, base)?));
                },
                Some(ObjectType::OverrunError) => {
                    return Ok(BlfObject::DriverOverrun(DriverOverrun::parse(body, base)?));
                },
                Some(ObjectType::EventComment) => {
                    return Ok(BlfObject::EventComment(EventComment::parse(body, base)?));
                },
                Some(ObjectType::GlobalMarker) => {
                    return match GlobalMarker::parse(body, base) {
                        Ok(marker) => Ok(BlfObject::GlobalMarker(marker)),
                        Err(_) => Ok(
                            BlfObject::Raw {
                                header,
                                data: read_bytes(bytes, header_size, object_size),
                            },
                        ),
                    };
                },
                Some(ObjectType::GpsEvent) => {
                    return Ok(BlfObject::GpsEvent(GpsEvent::parse(body, base)?));
                },
                Some(ObjectType::DataLostBegin) => {
                    return Ok(BlfObject::DataLostBegin(DataLostBegin::parse(body, base)?));
                },
                Some(ObjectType::DataLostEnd) => {
                    return Ok(BlfObject::DataLostEnd(DataLostEnd::parse(body, base)?));
                },
                Some(ObjectType::WaterMarkEvent) => {
                    return Ok(BlfObject::WaterMarkEvent(WaterMarkEvent::parse(body, base)?));
                },
                Some(ObjectType::TriggerCondition) => {
                    return Ok(BlfObject::TriggerCondition(TriggerCondition::parse(body, base)?));
                },
                Some(ObjectType::DistributedObjectMember) => {
                    return Ok(BlfObject::DistributedObjectMember(DistributedObjectMember::parse(body, base)?));
                },
                Some(ObjectType::AttributeEvent) => {
                    return Ok(BlfObject::AttributeEvent(AttributeEvent::parse(body, base)?));
                },
                Some(ObjectType::FunctionBus) => {
                    return Ok(BlfObject::FunctionBus(FunctionBus::parse(body, base)?));
                },
                Some(ObjectType::DiagRequestInterpretation) => {
                    return Ok(BlfObject::DiagRequestInterpretation(DiagRequestInterpretation::parse(body, base)?));
                },
                Some(ObjectType::EthernetFrame) => {
                    return Ok(BlfObject::EthernetFrame(EthernetFrame::parse(body, base)?));
                },
                Some(ObjectType::EthernetRxError) => {
                    return Ok(BlfObject::EthernetRxError(EthernetRxError::parse(body, base)?));
                },
                Some(ObjectType::EthernetStatus) => {
                    return Ok(BlfObject::EthernetStatus(EthernetStatus::parse(body, base)?));
                },
                Some(ObjectType::EthernetStatistic) => {
                    return Ok(BlfObject::EthernetStatistic(EthernetStatistic::parse(body, base)?));
                },
                Some(
                    ObjectType::EthernetFrameEx
                    | ObjectType::EthernetFrameForwarded
                    | ObjectType::EthernetErrorEx
                    | ObjectType::EthernetErrorForwarded,
                ) => {
                    return Ok(BlfObject::EthernetFrameEx(EthernetFrameEx::parse(body, base)?));
                },
                Some(ObjectType::LinMessage) => {
                    return Ok(BlfObject::LinMessage(LinMessage::parse(body, base)?));
                },
                Some(ObjectType::LinMessage2) => {
                    return Ok(BlfObject::LinMessage2(LinMessage2::parse(body, base)?));
                },
                Some(ObjectType::CanMessage) => {
                    return Ok(BlfObject::CanMessage(CanMessage::parse(body, base)?));
                },
                Some(ObjectType::CanMessage2) => {
                    return Ok(BlfObject::CanMessage2(CanMessage2::parse(body, base)?));
                },
                Some(ObjectType::CanError) => {
                    return Ok(BlfObject::CanError(CanError::parse(body, base)?));
                },
                Some(ObjectType::CanErrorExt) => {
                    return Ok(BlfObject::CanErrorExt(CanErrorExt::parse(body, base)?));
                },
                Some(ObjectType::CanOverload) => {
                    return Ok(BlfObject::CanOverload(CanOverload::parse(body, base)?));
                },
                Some(ObjectType::CanFdMessage) => {
                    return Ok(BlfObject::CanFdMessage(CanFdMessage::parse(body, base)?));
                },
                Some(ObjectType::CanFdMessage64) => {
                    return Ok(BlfObject::CanFdMessage64(CanFdManaged::parse(body, base)?));
                },
                Some(ObjectType::CanFdError64) => {
                    return Ok(BlfObject::CanFdError64(CanFdError64::parse(body, base)?));
                },
                Some(ObjectType::CanStatistic) => {
                    return Ok(BlfObject::CanStatistic(CanStatistic::parse(body, base)?));
                },
                Some(ObjectType::CanDriverError) => {
                    return Ok(BlfObject::CanDriverError(CanDriverError::parse(body, base)?));
                },
                Some(ObjectType::CanDriverSync) => {
                    return Ok(BlfObject::CanDriverSync(CanDriverSync::parse(body, base)?));
                },
                Some(ObjectType::CanDriverErrorExt) => {
                    return Ok(BlfObject::CanDriverErrorExt(CanDriverErrorExt::parse(body, base)?));
                },
                Some(ObjectType::CanSettingChanged) => {
                    return Ok(BlfObject::CanSettingChanged(CanSettingChanged::parse(body, base)?));
                },
                Some(ObjectType::AppText) => {
                    return Ok(BlfObject::AppText(AppTextManaged::parse(body, base)?));
                },
                Some(ObjectType::SysVariable) => {
                    return Ok(BlfObject::SysVariable(SysVariableManaged::parse(body, base)?));
                },
                Some(ObjectType::RestorepointContainer) => {
                    return Ok(BlfObject::RestorePointContainer(RestorePointContainerManaged::parse(body, base)?));
                },
                _ => {},
            }
        }
        let data = read_bytes(bytes, header_size, object_size);
        if header.base.object_type().is_some() {
            Ok(BlfObject::Raw { header, data })
        } else {
            Ok(BlfObject::Unknown { header, data })
        }
    }

    /// How writing the object fails, if it does: an opaque object must have the size of its
    /// header and payload, and every object must have the size that it declares.
    pub open spec fn write_failure(self) -> Option<Failure> {
        let written = self.encoding().len() as int;
        let declared = u32_at(self.encoding(), 8);
        let h = self.head().base;
        if self.payload() is Some && h.object_size != h.header_size + self.payload()->0.len() {
            Some(
                Failure::Write(
                    "unknown object: object_size "@ + dec(h.object_size as nat) + " != header "@
                        + dec(h.header_size as nat) + " + payload "@ + dec(
                        self.payload()->0.len(),
                    ),
                ),
            )
        } else if written < 12 {
            Some(Failure::Write("object writer produced a truncated header"@))
        } else if written != declared {
            Some(
                Failure::Write(
                    "object writer produced "@ + dec(written as nat) + " bytes but declared "@
                        + dec(declared as nat),
                ),
            )
        } else {
            None
        }
    }

    /// Puts the bytes of the object behind those that are there; where that fails, nothing
    /// is written.
    pub fn write_to(&self, out: &mut Vec<u8>) -> (r: Result<()>)
        ensures
            match r {
                Ok(_) => {
                    &&& self.write_failure() is None
                    &&& final(out)@ == old(out)@ + self.encoding()
                },
                Err(e) => {
                    &&& self.write_failure() == Some(e@)
                    &&& final(out)@ == old(out)@
                },
            },
    {
        let start: usize = out.len();
        match self {
            BlfObject::AppTrigger(o) => o.write_to(out),
            BlfObject::EnvironmentVariable(o) => o.write_to(out),
            BlfObject::RealtimeClock(o) => o.write_to(out),
            BlfObject::DriverOverrun(o) => o.write_to(out),
            BlfObject::EventComment(o) => o.write_to(out),
            BlfObject::GlobalMarker(o) => o.write_to(out),
            BlfObject::GpsEvent(o) => o.write_to(out),
            BlfObject::DataLostBegin(o) => o.write_to(out),
            BlfObject::DataLostEnd(o) => o.write_to(out),
            BlfObject::WaterMarkEvent(o) => o.write_to(out),
            BlfObject::TriggerCondition(o) => o.write_to(out),
            BlfObject::DistributedObjectMember(o) => o.write_to(out),
            BlfObject::AttributeEvent(o) => o.write_to(out),
            BlfObject::FunctionBus(o) => o.write_to(out),
            BlfObject::DiagRequestInterpretation(o) => o.write_to(out),
            BlfObject::EthernetFrame(o) => o.write_to(out),
            BlfObject::EthernetRxError(o) => o.write_to(out),
            BlfObject::EthernetStatus(o) => o.write_to(out),
            BlfObject::EthernetStatistic(o) => o.write_to(out),
            BlfObject::EthernetFrameEx(o) => o.write_to(out),
            BlfObject::LinMessage(o) => o.write_to(out),
            BlfObject::LinMessage2(o) => o.write_to(out),
            BlfObject::CanMessage(o) => o.write_to(out),
            BlfObject::CanMessage2(o) => o.write_to(out),
            BlfObject::CanError(o) => o.write_to(out),
            BlfObject::CanErrorExt(o) => o.write_to(out),
            BlfObject::CanOverload(o) => o.write_to(out),
            BlfObject::CanFdMessage(o) => o.write_to(out),
            BlfObject::CanFdMessage64(o) => o.write_to(out),
            BlfObject::CanFdError64(o) => o.write_to(out),
            BlfObject::CanStatistic(o) => o.write_to(out),
            BlfObject::CanDriverError(o) => o.write_to(out),
            BlfObject::CanDriverSync(o) => o.write_to(out),
            BlfObject::CanDriverErrorExt(o) => o.write_to(out),
            BlfObject::CanSettingChanged(o) => o.write_to(out),
            BlfObject::AppText(o) => o.write_to(out),
            BlfObject::SysVariable(o) => o.write_to(out),
            BlfObject::RestorePointContainer(o) => o.write_to(out),
            BlfObject::Raw { header, data } => {
                write_opaque(header, data, out)?;
            },
            BlfObject::Unknown { header, data } => {
                write_opaque(header, data, out)?;
            },
        }
        proof {
            assert(out@ == old(out)@ + self.encoding());
        }
        let written: usize = out.len() - start;
        if written < 12 {
            out.truncate(start);
            proof {
                assert(out@ =~= old(out)@);
            }
            return Err(
                Error::Write("object writer produced a truncated header".to_string()),
            );
        }
        let declared: u32 = read_u32(out, start + 8);
        proof {
            reveal(u32_at);
            assert(declared == u32_at(self.encoding(), 8));
        }
        if written as u64 != declared as u64 {
            let mut message = "object writer produced ".to_string();
            push_dec(&mut message, written as u64);
            message.append(" bytes but declared ");
            push_dec(&mut message, declared as u64);
            out.truncate(start);
            proof {
                assert(out@ =~= old(out)@);
            }
            return Err(Error::Write(message));
        }
        Ok(())
    }

    /// Whether the object is a CAN data frame of the channel and identifier that a filter
    /// asks for. A negative channel matches all channels, and `u32::MAX` every identifier.
    pub open spec fn can_filter(self, channel: i32, id: u32) -> bool {
        match self {
            BlfObject::CanMessage(m) => {
                &&& m.dlc > 0
                &&& (m.flags.0 == CanFlags::RX || m.flags.0 == CanFlags::TX)
                &&& (id == u32::MAX || id == m.id)
                &&& channel_matches(channel, m.channel)
            },
            BlfObject::CanMessage2(m) => {
                &&& m.dlc > 0
                &&& (m.flags.0 == CanFlags::RX || m.flags.0 == CanFlags::TX)
                &&& (id == u32::MAX || id == m.id)
                &&& channel_matches(channel, m.channel)
            },
            BlfObject::CanFdMessage(m) => {
                &&& m.dlc > 0
                &&& (m.flags.0 == CanFlags::RX || m.flags.0 == CanFlags::TX)
                &&& (id == u32::MAX || id == m.id)
                &&& channel_matches(channel, m.channel)
            },
            BlfObject::CanFdMessage64(m) => {
                &&& m.valid_data_bytes > 0
                &&& (id == u32::MAX || id == m.id)
                &&& (channel < 0 || m.channel == channel)
            },
            _ => false,
        }
    }

    pub fn matches_can_filter(&self, channel: i32, id: u32) -> (r: bool)
        ensures
            r == self.can_filter(channel, id),
    {
        match self {
            BlfObject::CanMessage(m) => m.dlc > 0 && (m.flags.0 == CanFlags::RX || m.flags.0
                == CanFlags::TX) && (id == u32::MAX || id == m.id) && accepts_channel(
                channel,
                m.channel,
            ),
            BlfObject::CanMessage2(m) => m.dlc > 0 && (m.flags.0 == CanFlags::RX || m.flags.0
                == CanFlags::TX) && (id == u32::MAX || id == m.id) && accepts_channel(
                channel,
                m.channel,
            ),
            BlfObject::CanFdMessage(m) => m.dlc > 0 && (m.flags.0 == CanFlags::RX || m.flags.0
                == CanFlags::TX) && (id == u32::MAX || id == m.id) && accepts_channel(
                channel,
                m.channel,
            ),
            BlfObject::CanFdMessage64(m) => m.valid_data_bytes > 0 && (id == u32::MAX || id == m.id)
                && (channel < 0 || m.channel as i32 == channel),
            _ => false,
        }
    }

    /// Whether the object is a LIN data frame of the channel and identifier that a filter
    /// asks for. A negative channel matches all channels, and `u8::MAX` every identifier.
    pub open spec fn lin_filter(self, channel: i32, id: u8) -> bool {
        match self {
            BlfObject::LinMessage(m) => {
                &&& m.id <= 0x3f
                &&& m.dlc <= 8
                &&& m.dir <= 2
                &&& (id == u8::MAX || id == m.id)
                &&& channel_matches(channel, m.channel)
            },
            BlfObject::LinMessage2(m) => {
                &&& m.id <= 0x3f
                &&& m.dlc <= 8
                &&& m.dir <= 2
                &&& (id == u8::MAX || id == m.id)
                &&& channel_matches(channel, m.channel)
            },
            _ => false,
        }
    }

    pub fn matches_lin_filter(&self, channel: i32, id: u8) -> (r: bool)
        ensures
            r == self.lin_filter(channel, id),
    {
        match self {
            BlfObject::LinMessage(m) => m.id <= 0x3f && m.dlc <= 8 && m.dir <= 2 && (id == u8::MAX
                || id == m.id) && accepts_channel(channel, m.channel),
            BlfObject::LinMessage2(m) => m.id <= 0x3f && m.dlc <= 8 && m.dir <= 2 && (id == u8::MAX
                || id == m.id) && accepts_channel(channel, m.channel),
            _ => false,
        }
    }

    /// Whether the object is one that reading can give, so that its bytes can be read back:
    /// its header fits it, and its kind is that of its type.
    pub open spec fn canonical(self) -> bool {
        let t = ObjectType::of_raw(self.head().base.object_type);
        &&& self.head().base.object_size == self.encoding().len()
        &&& self.head().base.object_size >= 32
        &&& (match self {
            BlfObject::AppTrigger(o) => o.canonical() && t == Some(ObjectType::AppTrigger),
            BlfObject::EnvironmentVariable(o) => o.canonical() && (
                t == Some(ObjectType::EnvInteger) || t == Some(ObjectType::EnvDouble) || t == Some(ObjectType::EnvString) || t == Some(ObjectType::EnvData)
            ),
            BlfObject::RealtimeClock(o) => o.canonical() && t == Some(ObjectType::Realtimclock),
            BlfObject::DriverOverrun(o) => o.canonical() && t == Some(ObjectType::OverrunError),
            BlfObject::EventComment(o) => o.canonical() && t == Some(ObjectType::EventComment),
            BlfObject::GlobalMarker(o) => o.canonical() && t == Some(ObjectType::GlobalMarker),
            BlfObject::GpsEvent(o) => o.canonical() && t == Some(ObjectType::GpsEvent),
            BlfObject::DataLostBegin(o) => o.canonical() && t == Some(ObjectType::DataLostBegin),
            BlfObject::DataLostEnd(o) => o.canonical() && t == Some(ObjectType::DataLostEnd),
            BlfObject::WaterMarkEvent(o) => o.canonical() && t == Some(ObjectType::WaterMarkEvent),
            BlfObject::TriggerCondition(o) => o.canonical() && t == Some(ObjectType::TriggerCondition),
            BlfObject::DistributedObjectMember(o) => o.canonical() && t == Some(
                ObjectType::DistributedObjectMember
            ),
            BlfObject::AttributeEvent(o) => o.canonical() && t == Some(ObjectType::AttributeEvent),
            BlfObject::FunctionBus(o) => o.canonical() && t == Some(ObjectType::FunctionBus),
            BlfObject::DiagRequestInterpretation(o) => o.canonical() && t == Some(
                ObjectType::DiagRequestInterpretation
            ),
            BlfObject::EthernetFrame(o) => o.canonical() && t == Some(ObjectType::EthernetFrame),
            BlfObject::EthernetRxError(o) => o.canonical() && t == Some(ObjectType::EthernetRxError),
            BlfObject::EthernetStatus(o) => o.canonical() && t == Some(ObjectType::EthernetStatus),
            BlfObject::EthernetStatistic(o) => o.canonical() && t == Some(ObjectType::EthernetStatistic),
            BlfObject::EthernetFrameEx(o) => o.canonical() && (
                t == Some(ObjectType::EthernetFrameEx) || t == Some(
                    ObjectType::EthernetFrameForwarded
                ) || t == Some(ObjectType::EthernetErrorEx) || t == Some(ObjectType::EthernetErrorForwarded)
            ),
            BlfObject::LinMessage(o) => o.canonical() && t == Some(ObjectType::LinMessage),
            BlfObject::LinMessage2(o) => o.canonical() && t == Some(ObjectType::LinMessage2),
            BlfObject::CanMessage(o) => o.canonical() && t == Some(ObjectType::CanMessage),
            BlfObject::CanMessage2(o) => o.canonical() && t == Some(ObjectType::CanMessage2),
            BlfObject::CanError(o) => o.canonical() && t == Some(ObjectType::CanError),
            BlfObject::CanErrorExt(o) => o.canonical() && t == Some(ObjectType::CanErrorExt),
            BlfObject::CanOverload(o) => o.canonical() && t == Some(ObjectType::CanOverload),
            BlfObject::CanFdMessage(o) => o.canonical() && t == Some(ObjectType::CanFdMessage),
            BlfObject::CanFdMessage64(o) => o.canonical() && t == Some(ObjectType::CanFdMessage64),
            BlfObject::CanFdError64(o) => o.canonical() && t == Some(ObjectType::CanFdError64),
            BlfObject::CanStatistic(o) => o.canonical() && t == Some(ObjectType::CanStatistic),
            BlfObject::CanDriverError(o) => o.canonical() && t == Some(ObjectType::CanDriverError),
            BlfObject::CanDriverSync(o) => o.canonical() && t == Some(ObjectType::CanDriverSync),
            BlfObject::CanDriverErrorExt(o) => o.canonical() && t == Some(ObjectType::CanDriverErrorExt),
            BlfObject::CanSettingChanged(o) => o.canonical() && t == Some(ObjectType::CanSettingChanged),
            BlfObject::AppText(o) => o.canonical() && t == Some(ObjectType::AppText),
            BlfObject::SysVariable(o) => o.canonical() && t == Some(ObjectType::SysVariable),
            BlfObject::RestorePointContainer(o) => o.canonical() && t == Some(ObjectType::RestorepointContainer),
            BlfObject::Raw { header, data } => {
                &&& header.valid()
                &&& t is Some
                &&& header.plain() && Self::is_typed(t->0) ==> t == Some(ObjectType::GlobalMarker)
                    && GlobalMarker::failure(self.encoding(), 0) is Some
            },
            BlfObject::Unknown { header, data } => header.valid() && t is None,
        })
    }

    /// What holds of an object whose header and fields stand in its bytes.
    proof fn lemma_typed(self, t: ObjectType, base: int)
        requires
            self.payload() is None,
            self.head().plain(),
            self.head().reads(self.encoding()),
            self.head().base.object_size == self.encoding().len(),
            self.head().base.object_size >= 32,
            ObjectType::of_raw(self.head().base.object_type) == Some(t),
            LObj::failure(self.encoding(), base) is None,
            Self::is_typed(t),
            Self::typed_failure(t, self.encoding(), base) is None,
            self.typed_reads(t, self.encoding()),
        ensures
            self.write_failure() is None,
            Self::failure(self.encoding(), base) is None,
            self.reads(self.encoding(), base),
    {
        reveal(BlfObject::failure);
        reveal(BlfObject::reads);
        let s = self.encoding();
        assert(s.subrange(0, s.len() as int) =~= s);
    }

    /// A canonical object that was not decoded is written, and reading its bytes gives it back.
    proof fn lemma_opaque(self, base: int)
        requires
            self.canonical(),
            self.payload() is Some,
        ensures
            self.write_failure() is None,
            Self::failure(self.encoding(), base) is None,
            self.reads(self.encoding(), base),
            self.head().valid(),
            self.head().reads(self.encoding()),
            self.head().base.header_size <= self.encoding().len(),
    {
        reveal(BlfObject::failure);
        reveal(BlfObject::reads);
        let s = self.encoding();
        assert(s.subrange(0, s.len() as int) =~= s);
        ObjectType::law_raw_of_registered(self.head().base.object_type);
        lemma_opaque_read_of_write(self.head(), self.payload()->0, 0);
        lemma_opaque_read_of_write(self.head(), self.payload()->0, base);
    }

    /// A part of the kinds of objects, so that laws can go through them part by part.
    pub(crate) open spec fn is_of_group_0(self) -> bool {
        match self {
            BlfObject::AppTrigger(_) => true,
            BlfObject::EnvironmentVariable(_) => true,
            BlfObject::RealtimeClock(_) => true,
            BlfObject::DriverOverrun(_) => true,
            BlfObject::EventComment(_) => true,
            BlfObject::GlobalMarker(_) => true,
            BlfObject::GpsEvent(_) => true,
            _ => false,
        }
    }

    /// A part of the kinds of objects, so that laws can go through them part by part.
    pub(crate) open spec fn is_of_group_1(self) -> bool {
        match self {
            BlfObject::DataLostBegin(_) => true,
            BlfObject::DataLostEnd(_) => true,
            BlfObject::WaterMarkEvent(_) => true,
            BlfObject::TriggerCondition(_) => true,
            BlfObject::DistributedObjectMember(_) => true,
            BlfObject::AttributeEvent(_) => true,
            BlfObject::FunctionBus(_) => true,
            _ => false,
        }
    }

    /// A part of the kinds of objects, so that laws can go through them part by part.
    pub(crate) open spec fn is_of_group_2(self) -> bool {
        match self {
            BlfObject::DiagRequestInterpretation(_) => true,
            BlfObject::EthernetFrame(_) => true,
            BlfObject::EthernetRxError(_) => true,
            BlfObject::EthernetStatus(_) => true,
            BlfObject::EthernetStatistic(_) => true,
            BlfObject::EthernetFrameEx(_) => true,
            BlfObject::LinMessage(_) => true,
            _ => false,
        }
    }

    /// A part of the kinds of objects, so that laws can go through them part by part.
    pub(crate) open spec fn is_of_group_3(self) -> bool {
        match self {
            BlfObject::LinMessage2(_) => true,
            BlfObject::CanMessage(_) => true,
            BlfObject::CanMessage2(_) => true,
            BlfObject::CanError(_) => true,
            BlfObject::CanErrorExt(_) => true,
            BlfObject::CanOverload(_) => true,
            BlfObject::CanFdMessage(_) => true,
            _ => false,
        }
    }

    /// A part of the kinds of objects, so that laws can go through them part by part.
    pub(crate) open spec fn is_of_group_4(self) -> bool {
        match self {
            BlfObject::CanFdMessage64(_) => true,
            BlfObject::CanFdError64(_) => true,
            BlfObject::CanStatistic(_) => true,
            BlfObject::CanDriverError(_) => true,
            BlfObject::CanDriverSync(_) => true,
            BlfObject::CanDriverErrorExt(_) => true,
            BlfObject::CanSettingChanged(_) => true,
            _ => false,
        }
    }

    /// A part of the kinds of objects, so that laws can go through them part by part.
    pub(crate) open spec fn is_of_group_5(self) -> bool {
        match self {
            BlfObject::AppText(_) => true,
            BlfObject::SysVariable(_) => true,
            BlfObject::RestorePointContainer(_) => true,
            _ => false,
        }
    }

    #[verifier::spinoff_prover]
    proof fn lemma_read_0(self, base: int)
        requires
            self.canonical(),
            self.is_of_group_0(),
        ensures
            self.write_failure() is None,
            Self::failure(self.encoding(), base) is None,
            self.reads(self.encoding(), base),
            self.head().valid(),
            self.head().reads(self.encoding()),
            self.head().base.header_size <= self.encoding().len(),
    {
        ObjectType::law_raw_of_registered(self.head().base.object_type);
        let t = ObjectType::of_raw(self.head().base.object_type);
        match self {
            BlfObject::AppTrigger(o) => {
                o.law_read_of_write(base);
                self.lemma_typed(t->0, base);
            },
            BlfObject::EnvironmentVariable(o) => {
                o.law_read_of_write(base);
                self.lemma_typed(t->0, base);
            },
            BlfObject::RealtimeClock(o) => {
                o.law_read_of_write(base);
                self.lemma_typed(t->0, base);
            },
            BlfObject::DriverOverrun(o) => {
                o.law_read_of_write(base);
                self.lemma_typed(t->0, base);
            },
            BlfObject::EventComment(o) => {
                o.law_read_of_write(base);
                self.lemma_typed(t->0, base);
            },
            BlfObject::GlobalMarker(o) => {
                o.law_read_of_write(base);
                self.lemma_typed(t->0, base);
            },
            BlfObject::GpsEvent(o) => {
                o.law_read_of_write(base);
                self.lemma_typed(t->0, base);
            },
            _ => {},
        }
    }

    #[verifier::spinoff_prover]
    proof fn lemma_read_1(self, base: int)
        requires
            self.canonical(),
            self.is_of_group_1(),
        ensures
            self.write_failure() is None,
            Self::failure(self.encoding(), base) is None,
            self.reads(self.encoding(), base),
            self.head().valid(),
            self.head().reads(self.encoding()),
            self.head().base.header_size <= self.encoding().len(),
    {
        ObjectType::law_raw_of_registered(self.head().base.object_type);
        let t = ObjectType::of_raw(self.head().base.object_type);
        match self {
            BlfObject::DataLostBegin(o) => {
                o.law_read_of_write(base);
                self.lemma_typed(t->0, base);
            },
            BlfObject::DataLostEnd(o) => {
                o.law_read_of_write(base);
                self.lemma_typed(t->0, base);
            },
            BlfObject::WaterMarkEvent(o) => {
                o.law_read_of_write(base);
                self.lemma_typed(t->0, base);
            },
            BlfObject::TriggerCondition(o) => {
                o.law_read_of_write(base);
                self.lemma_typed(t->0, base);
            },
            BlfObject::DistributedObjectMember(o) => {
                o.law_read_of_write(base);
                self.lemma_typed(t->0, base);
            },
            BlfObject::AttributeEvent(o) => {
                o.law_read_of_write(base);
                self.lemma_typed(t->0, base);
            },
            BlfObject::FunctionBus(o) => {
                o.law_read_of_write(base);
                self.lemma_typed(t->0, base);
            },
            _ => {},
        }
    }

    #[verifier::spinoff_prover]
    proof fn lemma_read_2(self, base: int)
        requires
            self.canonical(),
            self.is_of_group_2(),
        ensures
            self.write_failure() is None,
            Self::failure(self.encoding(), base) is None,
            self.reads(self.encoding(), base),
            self.head().valid(),
            self.head().reads(self.encoding()),
            self.head().base.header_size <= self.encoding().len(),
    {
        ObjectType::law_raw_of_registered(self.head().base.object_type);
        let t = ObjectType::of_raw(self.head().base.object_type);
        match self {
            BlfObject::DiagRequestInterpretation(o) => {
                o.law_read_of_write(base);
                self.lemma_typed(t->0, base);
            },
            BlfObject::EthernetFrame(o) => {
                o.law_read_of_write(base);
                self.lemma_typed(t->0, base);
            },
            BlfObject::EthernetRxError(o) => {
                o.law_read_of_write(base);
                self.lemma_typed(t->0, base);
            },
            BlfObject::EthernetStatus(o) => {
                o.law_read_of_write(base);
                self.lemma_typed(t->0, base);
            },
            BlfObject::EthernetStatistic(o) => {
                o.law_read_of_write(base);
                self.lemma_typed(t->0, base);
            },
            BlfObject::EthernetFrameEx(o) => {
                o.law_read_of_write(base);
                self.lemma_typed(t->0, base);
            },
            BlfObject::LinMessage(o) => {
                o.law_read_of_write(base);
                self.lemma_typed(t->0, base);
            },
            _ => {},
        }
    }

    #[verifier::spinoff_prover]
    proof fn lemma_read_3(self, base: int)
        requires
            self.canonical(),
            self.is_of_group_3(),
        ensures
            self.write_failure() is None,
            Self::failure(self.encoding(), base) is None,
            self.reads(self.encoding(), base),
            self.head().valid(),
            self.head().reads(self.encoding()),
            self.head().base.header_size <= self.encoding().len(),
    {
        ObjectType::law_raw_of_registered(self.head().base.object_type);
        let t = ObjectType::of_raw(self.head().base.object_type);
        match self {
            BlfObject::LinMessage2(o) => {
                o.law_read_of_write(base);
                self.lemma_typed(t->0, base);
            },
            BlfObject::CanMessage(o) => {
                o.law_read_of_write(base);
                self.lemma_typed(t->0, base);
            },
            BlfObject::CanMessage2(o) => {
                o.law_read_of_write(base);
                self.lemma_typed(t->0, base);
            },
            BlfObject::CanError(o) => {
                o.law_read_of_write(base);
                self.lemma_typed(t->0, base);
            },
            BlfObject::CanErrorExt(o) => {
                o.law_read_of_write(base);
                self.lemma_typed(t->0, base);
            },
            BlfObject::CanOverload(o) => {
                o.law_read_of_write(base);
                self.lemma_typed(t->0, base);
            },
            BlfObject::CanFdMessage(o) => {
                o.law_read_of_write(base);
                self.lemma_typed(t->0, base);
            },
            _ => {},
        }
    }

    #[verifier::spinoff_prover]
    proof fn lemma_read_4(self, base: int)
        requires
            self.canonical(),
            self.is_of_group_4(),
        ensures
            self.write_failure() is None,
            Self::failure(self.encoding(), base) is None,
            self.reads(self.encoding(), base),
            self.head().valid(),
            self.head().reads(self.encoding()),
            self.head().base.header_size <= self.encoding().len(),
    {
        ObjectType::law_raw_of_registered(self.head().base.object_type);
        let t = ObjectType::of_raw(self.head().base.object_type);
        match self {
            BlfObject::CanFdMessage64(o) => {
                o.law_read_of_write(base);
                self.lemma_typed(t->0, base);
            },
            BlfObject::CanFdError64(o) => {
                o.law_read_of_write(base);
                self.lemma_typed(t->0, base);
            },
            BlfObject::CanStatistic(o) => {
                o.law_read_of_write(base);
                self.lemma_typed(t->0, base);
            },
            BlfObject::CanDriverError(o) => {
                o.law_read_of_write(base);
                self.lemma_typed(t->0, base);
            },
            BlfObject::CanDriverSync(o) => {
                o.law_read_of_write(base);
                self.lemma_typed(t->0, base);
            },
            BlfObject::CanDriverErrorExt(o) => {
                o.law_read_of_write(base);
                self.lemma_typed(t->0, base);
            },
            BlfObject::CanSettingChanged(o) => {
                o.law_read_of_write(base);
                self.lemma_typed(t->0, base);
            },
            _ => {},
        }
    }

    #[verifier::spinoff_prover]
    proof fn lemma_read_5(self, base: int)
        requires
            self.canonical(),
            self.is_of_group_5(),
        ensures
            self.write_failure() is None,
            Self::failure(self.encoding(), base) is None,
            self.reads(self.encoding(), base),
            self.head().valid(),
            self.head().reads(self.encoding()),
            self.head().base.header_size <= self.encoding().len(),
    {
        ObjectType::law_raw_of_registered(self.head().base.object_type);
        let t = ObjectType::of_raw(self.head().base.object_type);
        match self {
            BlfObject::AppText(o) => {
                o.law_read_of_write(base);
                self.lemma_typed(t->0, base);
            },
            BlfObject::SysVariable(o) => {
                o.law_read_of_write(base);
                self.lemma_typed(t->0, base);
            },
            BlfObject::RestorePointContainer(o) => {
                o.law_read_of_write(base);
                self.lemma_typed(t->0, base);
            },
            _ => {},
        }
    }

    /// A canonical object is written, and reading its bytes gives back its fields.
    pub proof fn law_read_of_write(self, base: int)
        requires
            self.canonical(),
        ensures
            self.write_failure() is None,
            Self::failure(self.encoding(), base) is None,
            self.reads(self.encoding(), base),
            self.head().valid(),
            self.head().reads(self.encoding()),
            self.head().base.header_size <= self.encoding().len(),
    {
        if self.is_of_group_0() {
            self.lemma_read_0(base);
        } else if self.is_of_group_1() {
            self.lemma_read_1(base);
        } else if self.is_of_group_2() {
            self.lemma_read_2(base);
        } else if self.is_of_group_3() {
            self.lemma_read_3(base);
        } else if self.is_of_group_4() {
            self.lemma_read_4(base);
        } else if self.is_of_group_5() {
            self.lemma_read_5(base);
        } else {
            self.lemma_opaque(base);
        }
    }

    /// An object that was not decoded is written as the bytes that it was read from.
    pub proof fn law_opaque_lossless(self, s: Seq<u8>, base: int)
        requires
            Self::failure(s, base) is None,
            self.reads(s, base),
            self.payload() is Some,
            self.head().valid(),
            u16_at(s, 4) <= u32_at(s, 8),
        ensures
            self.encoding() == s.subrange(0, u32_at(s, 8) as int),
            self.write_failure() is None,
    {
        reveal(BlfObject::failure);
        reveal(BlfObject::reads);
        let size = u32_at(s, 8) as int;
        let header = self.head();
        header.law_write_of_read(s);
        assert(self.encoding() =~= s.subrange(0, size));
        reveal(u32_at);
        assert(u32_at(self.encoding(), 8) == u32_at(s, 8));
    }

    /// The bytes of an object determine it.
    pub proof fn law_reads_unique(self, other: Self, s: Seq<u8>, base: int)
        requires
            self.reads(s, base),
            other.reads(s, base),
        ensures
            self.same(other),
    {
        reveal(BlfObject::reads);
        let body = s.subrange(0, u32_at(s, 8) as int);
        match (self, other) {
            (BlfObject::AppTrigger(a), BlfObject::AppTrigger(b)) => a.law_reads_unique(b, body),
            (BlfObject::EnvironmentVariable(a), BlfObject::EnvironmentVariable(b)) => a.law_reads_unique(b, body),
            (BlfObject::RealtimeClock(a), BlfObject::RealtimeClock(b)) => a.law_reads_unique(b, body),
            (BlfObject::DriverOverrun(a), BlfObject::DriverOverrun(b)) => a.law_reads_unique(b, body),
            (BlfObject::EventComment(a), BlfObject::EventComment(b)) => a.law_reads_unique(b, body),
            (BlfObject::GlobalMarker(a), BlfObject::GlobalMarker(b)) => a.law_reads_unique(b, body),
            (BlfObject::GpsEvent(a), BlfObject::GpsEvent(b)) => a.law_reads_unique(b, body),
            (BlfObject::DataLostBegin(a), BlfObject::DataLostBegin(b)) => a.law_reads_unique(b, body),
            (BlfObject::DataLostEnd(a), BlfObject::DataLostEnd(b)) => a.law_reads_unique(b, body),
            (BlfObject::WaterMarkEvent(a), BlfObject::WaterMarkEvent(b)) => a.law_reads_unique(b, body),
            (BlfObject::TriggerCondition(a), BlfObject::TriggerCondition(b)) => a.law_reads_unique(b, body),
            (
                BlfObject::DistributedObjectMember(a),
                BlfObject::DistributedObjectMember(b)
            ) => a.law_reads_unique(b, body),
            (BlfObject::AttributeEvent(a), BlfObject::AttributeEvent(b)) => a.law_reads_unique(b, body),
            (BlfObject::FunctionBus(a), BlfObject::FunctionBus(b)) => a.law_reads_unique(b, body),
            (
                BlfObject::DiagRequestInterpretation(a),
                BlfObject::DiagRequestInterpretation(b)
            ) => a.law_reads_unique(b, body),
            (BlfObject::EthernetFrame(a), BlfObject::EthernetFrame(b)) => a.law_reads_unique(b, body),
            (BlfObject::EthernetRxError(a), BlfObject::EthernetRxError(b)) => a.law_reads_unique(b, body),
            (BlfObject::EthernetStatus(a), BlfObject::EthernetStatus(b)) => a.law_reads_unique(b, body),
            (BlfObject::EthernetStatistic(a), BlfObject::EthernetStatistic(b)) => a.law_reads_unique(b, body),
            (BlfObject::EthernetFrameEx(a), BlfObject::EthernetFrameEx(b)) => a.law_reads_unique(b, body),
            (BlfObject::LinMessage(a), BlfObject::LinMessage(b)) => a.law_reads_unique(b, body),
            (BlfObject::LinMessage2(a), BlfObject::LinMessage2(b)) => a.law_reads_unique(b, body),
            (BlfObject::CanMessage(a), BlfObject::CanMessage(b)) => a.law_reads_unique(b, body),
            (BlfObject::CanMessage2(a), BlfObject::CanMessage2(b)) => a.law_reads_unique(b, body),
            (BlfObject::CanError(a), BlfObject::CanError(b)) => a.law_reads_unique(b, body),
            (BlfObject::CanErrorExt(a), BlfObject::CanErrorExt(b)) => a.law_reads_unique(b, body),
            (BlfObject::CanOverload(a), BlfObject::CanOverload(b)) => a.law_reads_unique(b, body),
            (BlfObject::CanFdMessage(a), BlfObject::CanFdMessage(b)) => a.law_reads_unique(b, body),
            (BlfObject::CanFdMessage64(a), BlfObject::CanFdMessage64(b)) => a.law_reads_unique(b, body),
            (BlfObject::CanFdError64(a), BlfObject::CanFdError64(b)) => a.law_reads_unique(b, body),
            (BlfObject::CanStatistic(a), BlfObject::CanStatistic(b)) => a.law_reads_unique(b, body),
            (BlfObject::CanDriverError(a), BlfObject::CanDriverError(b)) => a.law_reads_unique(b, body),
            (BlfObject::CanDriverSync(a), BlfObject::CanDriverSync(b)) => a.law_reads_unique(b, body),
            (BlfObject::CanDriverErrorExt(a), BlfObject::CanDriverErrorExt(b)) => a.law_reads_unique(b, body),
            (BlfObject::CanSettingChanged(a), BlfObject::CanSettingChanged(b)) => a.law_reads_unique(b, body),
            (BlfObject::AppText(a), BlfObject::AppText(b)) => a.law_reads_unique(b, body),
            (BlfObject::SysVariable(a), BlfObject::SysVariable(b)) => a.law_reads_unique(b, body),
            (
                BlfObject::RestorePointContainer(a),
                BlfObject::RestorePointContainer(b)
            ) => a.law_reads_unique(b, body),
            (BlfObject::Raw { header: h1, .. }, BlfObject::Raw { header: h2, .. }) => {
                h1.law_reads_unique(h2, s);
            },
            (BlfObject::Unknown { header: h1, .. }, BlfObject::Unknown { header: h2, .. }) => {
                h1.law_reads_unique(h2, s);
            },
            _ => {},
        }
    }
}

fn write_opaque(header: &LObj, data: &Vec<u8>, out: &mut Vec<u8>) -> (r: Result<()>)
    ensures
        match r {
            Ok(_) => {
                &&& header.base.object_size == header.base.header_size + data@.len()
                &&& final(out)@ == old(out)@ + (header.encoding() + data@)
            },
            Err(e) => {
                &&& header.base.object_size != header.base.header_size + data@.len()
                &&& final(out)@ == old(out)@
                &&& e@ == Failure::Write(
                    "unknown object: object_size "@ + dec(header.base.object_size as nat)
                        + " != header "@ + dec(header.base.header_size as nat) + " + payload "@
                        + dec(data@.len()),
                )
            },
        },
{
    if header.base.object_size as u128 != header.base.header_size as u128 + data.len() as u128 {
        let mut message = "unknown object: object_size ".to_string();
        push_dec(&mut message, header.base.object_size as u64);
        message.append(" != header ");
        push_dec(&mut message, header.base.header_size as u64);
        message.append(" + payload ");
        push_dec(&mut message, data.len() as u64);
        return Err(Error::Write(message));
    }
    header.write_to(out);
    put_bytes(out, data);
    proof {
        assert(out@ =~= old(out)@ + (header.encoding() + data@));
    }
    Ok(())
}

/// The header of the first `size` bytes is the header of all of them, where it fits.
proof fn lemma_header_of_body(s: Seq<u8>, size: int, base: int, header: LObj)
    requires
        32 <= size <= s.len(),
        LObj::failure(s, base) is None,
        header.reads(s),
        header.valid(),
        header.base.header_size <= size,
    ensures
        LObj::failure(s.subrange(0, size), base) is None,
        header.reads(s.subrange(0, size)),
        u16_at(s.subrange(0, size), 4) == u16_at(s, 4),
        u16_at(s.subrange(0, size), 6) == u16_at(s, 6),
        u32_at(s.subrange(0, size), 8) == u32_at(s, 8),
        u32_at(s.subrange(0, size), 12) == u32_at(s, 12),
{
    let body = s.subrange(0, size);
    let n = header.base.header_size as int;
    header.law_write_of_read(s);
    reveal(crate::blf::bytes::starts_with);
    assert(body.subrange(0, n) =~= s.subrange(0, n));
    header.law_read_of_prefix(body, base);
}

/// Reading the bytes of an opaque object gives back its header and payload.
proof fn lemma_opaque_read_of_write(header: LObj, data: Seq<u8>, base: int)
    requires
        header.valid(),
        header.base.object_size == (header.encoding() + data).len(),
    ensures
        ({
            let s = header.encoding() + data;
            let n = header.base.header_size as int;
            &&& header.encoding().len() == n
            &&& LObj::failure(s, base) is None
            &&& header.reads(s)
            &&& s.subrange(n, s.len() as int) == data
        }),
{
    let s = header.encoding() + data;
    lemma_starts_with_self(s);
    lemma_field_bytes(header.encoding(), data, s);
    header.law_read_of_prefix(s, base);
}

} // verus!
